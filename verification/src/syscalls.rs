//! The system calls that a confined worker may make.

use vstd::prelude::*;

verus! {

/// A machine architecture that a filter can be made for.
#[derive(Clone, Copy, Debug, PartialEq, Eq, Structural)]
pub enum Arch {
    X86_64,
    Aarch64,
}

/// A system call of Linux.
#[derive(Clone, Copy, Debug, PartialEq, Eq, Structural)]
pub enum Syscall {
    SysRead,
    SysWrite,
    SysClose,
    SysLseek,
    SysPread64,
    SysReadv,
    SysWritev,
    SysMmap,
    SysMunmap,
    SysMprotect,
    SysBrk,
    SysMadvise,
    SysGetpid,
    SysGettid,
    SysGetuid,
    SysGeteuid,
    SysGetgid,
    SysGetegid,
    SysGetppid,
    SysClockGettime,
    SysClockNanosleep,
    SysNanosleep,
    SysGettimeofday,
    SysOpenat,
    SysFstat,
    SysStatx,
    SysNewfstatat,
    SysFchmodat,
    SysFaccessat,
    SysFaccessat2,
    SysFcntl,
    SysDup,
    SysDup3,
    SysPipe2,
    SysReadlinkat,
    SysUnlinkat,
    SysRenameat2,
    SysGetdents64,
    SysFtruncate,
    SysFsync,
    SysSocket,
    SysSocketpair,
    SysConnect,
    SysListen,
    SysAccept4,
    SysBind,
    SysSendto,
    SysRecvfrom,
    SysSendmsg,
    SysRecvmsg,
    SysShutdown,
    SysGetsockname,
    SysGetpeername,
    SysGetsockopt,
    SysSetsockopt,
    SysEpollCreate1,
    SysEpollCtl,
    SysEpollPwait,
    SysEpollPwait2,
    SysPpoll,
    SysEventfd2,
    SysRtSigaction,
    SysRtSigprocmask,
    SysRtSigreturn,
    SysRtSigtimedwait,
    SysSigaltstack,
    SysTkill,
    SysTgkill,
    SysKill,
    SysClone,
    SysClone3,
    SysFutex,
    SysSetRobustList,
    SysGetRobustList,
    SysSetTidAddress,
    SysPrctl,
    SysSchedYield,
    SysSchedGetaffinity,
    SysRseq,
    SysExit,
    SysExitGroup,
    SysExecve,
    SysPrlimit64,
    SysWait4,
    SysPidfdOpen,
    SysPidfdSendSignal,
    SysSeccomp,
    SysSetuid,
    SysSetgid,
    SysSetgroups,
    SysIoctl,
    SysGetrandom,
    SysMembarrier,
    SysRestartSyscall,
    SysOpen,
    SysPoll,
    SysPipe,
    SysAccess,
    SysUnlink,
    SysReadlink,
    SysEpollWait,
    SysFork,
    SysArchPrctl,
}

/// Its number on x86_64.
pub open spec fn x86_64_number(c: Syscall) -> i64 {
    match c {
        Syscall::SysRead => 0,
        Syscall::SysWrite => 1,
        Syscall::SysClose => 3,
        Syscall::SysLseek => 8,
        Syscall::SysPread64 => 17,
        Syscall::SysReadv => 19,
        Syscall::SysWritev => 20,
        Syscall::SysMmap => 9,
        Syscall::SysMunmap => 11,
        Syscall::SysMprotect => 10,
        Syscall::SysBrk => 12,
        Syscall::SysMadvise => 28,
        Syscall::SysGetpid => 39,
        Syscall::SysGettid => 186,
        Syscall::SysGetuid => 102,
        Syscall::SysGeteuid => 107,
        Syscall::SysGetgid => 104,
        Syscall::SysGetegid => 108,
        Syscall::SysGetppid => 110,
        Syscall::SysClockGettime => 228,
        Syscall::SysClockNanosleep => 230,
        Syscall::SysNanosleep => 35,
        Syscall::SysGettimeofday => 96,
        Syscall::SysOpenat => 257,
        Syscall::SysFstat => 5,
        Syscall::SysStatx => 332,
        Syscall::SysNewfstatat => 262,
        Syscall::SysFchmodat => 268,
        Syscall::SysFaccessat => 269,
        Syscall::SysFaccessat2 => 439,
        Syscall::SysFcntl => 72,
        Syscall::SysDup => 32,
        Syscall::SysDup3 => 292,
        Syscall::SysPipe2 => 293,
        Syscall::SysReadlinkat => 267,
        Syscall::SysUnlinkat => 263,
        Syscall::SysRenameat2 => 316,
        Syscall::SysGetdents64 => 217,
        Syscall::SysFtruncate => 77,
        Syscall::SysFsync => 74,
        Syscall::SysSocket => 41,
        Syscall::SysSocketpair => 53,
        Syscall::SysConnect => 42,
        Syscall::SysListen => 50,
        Syscall::SysAccept4 => 288,
        Syscall::SysBind => 49,
        Syscall::SysSendto => 44,
        Syscall::SysRecvfrom => 45,
        Syscall::SysSendmsg => 46,
        Syscall::SysRecvmsg => 47,
        Syscall::SysShutdown => 48,
        Syscall::SysGetsockname => 51,
        Syscall::SysGetpeername => 52,
        Syscall::SysGetsockopt => 55,
        Syscall::SysSetsockopt => 54,
        Syscall::SysEpollCreate1 => 291,
        Syscall::SysEpollCtl => 233,
        Syscall::SysEpollPwait => 281,
        Syscall::SysEpollPwait2 => 441,
        Syscall::SysPpoll => 271,
        Syscall::SysEventfd2 => 290,
        Syscall::SysRtSigaction => 13,
        Syscall::SysRtSigprocmask => 14,
        Syscall::SysRtSigreturn => 15,
        Syscall::SysRtSigtimedwait => 128,
        Syscall::SysSigaltstack => 131,
        Syscall::SysTkill => 200,
        Syscall::SysTgkill => 234,
        Syscall::SysKill => 62,
        Syscall::SysClone => 56,
        Syscall::SysClone3 => 435,
        Syscall::SysFutex => 202,
        Syscall::SysSetRobustList => 273,
        Syscall::SysGetRobustList => 274,
        Syscall::SysSetTidAddress => 218,
        Syscall::SysPrctl => 157,
        Syscall::SysSchedYield => 24,
        Syscall::SysSchedGetaffinity => 204,
        Syscall::SysRseq => 334,
        Syscall::SysExit => 60,
        Syscall::SysExitGroup => 231,
        Syscall::SysExecve => 59,
        Syscall::SysPrlimit64 => 302,
        Syscall::SysWait4 => 61,
        Syscall::SysPidfdOpen => 434,
        Syscall::SysPidfdSendSignal => 424,
        Syscall::SysSeccomp => 317,
        Syscall::SysSetuid => 105,
        Syscall::SysSetgid => 106,
        Syscall::SysSetgroups => 116,
        Syscall::SysIoctl => 16,
        Syscall::SysGetrandom => 318,
        Syscall::SysMembarrier => 324,
        Syscall::SysRestartSyscall => 219,
        Syscall::SysOpen => 2,
        Syscall::SysPoll => 7,
        Syscall::SysPipe => 22,
        Syscall::SysAccess => 21,
        Syscall::SysUnlink => 87,
        Syscall::SysReadlink => 89,
        Syscall::SysEpollWait => 232,
        Syscall::SysFork => 57,
        Syscall::SysArchPrctl => 158,
    }
}

/// Its number on aarch64, which lacks the calls that newer ones replaced.
pub open spec fn aarch64_number(c: Syscall) -> Option<i64> {
    match c {
        Syscall::SysRead => Some(63),
        Syscall::SysWrite => Some(64),
        Syscall::SysClose => Some(57),
        Syscall::SysLseek => Some(62),
        Syscall::SysPread64 => Some(67),
        Syscall::SysReadv => Some(65),
        Syscall::SysWritev => Some(66),
        Syscall::SysMmap => Some(222),
        Syscall::SysMunmap => Some(215),
        Syscall::SysMprotect => Some(226),
        Syscall::SysBrk => Some(214),
        Syscall::SysMadvise => Some(233),
        Syscall::SysGetpid => Some(172),
        Syscall::SysGettid => Some(178),
        Syscall::SysGetuid => Some(174),
        Syscall::SysGeteuid => Some(175),
        Syscall::SysGetgid => Some(176),
        Syscall::SysGetegid => Some(177),
        Syscall::SysGetppid => Some(173),
        Syscall::SysClockGettime => Some(113),
        Syscall::SysClockNanosleep => Some(115),
        Syscall::SysNanosleep => Some(101),
        Syscall::SysGettimeofday => Some(169),
        Syscall::SysOpenat => Some(56),
        Syscall::SysFstat => Some(80),
        Syscall::SysStatx => Some(291),
        Syscall::SysNewfstatat => Some(79),
        Syscall::SysFchmodat => Some(53),
        Syscall::SysFaccessat => Some(48),
        Syscall::SysFaccessat2 => Some(439),
        Syscall::SysFcntl => Some(25),
        Syscall::SysDup => Some(23),
        Syscall::SysDup3 => Some(24),
        Syscall::SysPipe2 => Some(59),
        Syscall::SysReadlinkat => Some(78),
        Syscall::SysUnlinkat => Some(35),
        Syscall::SysRenameat2 => Some(276),
        Syscall::SysGetdents64 => Some(61),
        Syscall::SysFtruncate => Some(46),
        Syscall::SysFsync => Some(82),
        Syscall::SysSocket => Some(198),
        Syscall::SysSocketpair => Some(199),
        Syscall::SysConnect => Some(203),
        Syscall::SysListen => Some(201),
        Syscall::SysAccept4 => Some(242),
        Syscall::SysBind => Some(200),
        Syscall::SysSendto => Some(206),
        Syscall::SysRecvfrom => Some(207),
        Syscall::SysSendmsg => Some(211),
        Syscall::SysRecvmsg => Some(212),
        Syscall::SysShutdown => Some(210),
        Syscall::SysGetsockname => Some(204),
        Syscall::SysGetpeername => Some(205),
        Syscall::SysGetsockopt => Some(209),
        Syscall::SysSetsockopt => Some(208),
        Syscall::SysEpollCreate1 => Some(20),
        Syscall::SysEpollCtl => Some(21),
        Syscall::SysEpollPwait => Some(22),
        Syscall::SysEpollPwait2 => Some(441),
        Syscall::SysPpoll => Some(73),
        Syscall::SysEventfd2 => Some(19),
        Syscall::SysRtSigaction => Some(134),
        Syscall::SysRtSigprocmask => Some(135),
        Syscall::SysRtSigreturn => Some(139),
        Syscall::SysRtSigtimedwait => Some(137),
        Syscall::SysSigaltstack => Some(132),
        Syscall::SysTkill => Some(130),
        Syscall::SysTgkill => Some(131),
        Syscall::SysKill => Some(129),
        Syscall::SysClone => Some(220),
        Syscall::SysClone3 => Some(435),
        Syscall::SysFutex => Some(98),
        Syscall::SysSetRobustList => Some(99),
        Syscall::SysGetRobustList => Some(100),
        Syscall::SysSetTidAddress => Some(96),
        Syscall::SysPrctl => Some(167),
        Syscall::SysSchedYield => Some(124),
        Syscall::SysSchedGetaffinity => Some(123),
        Syscall::SysRseq => Some(293),
        Syscall::SysExit => Some(93),
        Syscall::SysExitGroup => Some(94),
        Syscall::SysExecve => Some(221),
        Syscall::SysPrlimit64 => Some(261),
        Syscall::SysWait4 => Some(260),
        Syscall::SysPidfdOpen => Some(434),
        Syscall::SysPidfdSendSignal => Some(424),
        Syscall::SysSeccomp => Some(277),
        Syscall::SysSetuid => Some(146),
        Syscall::SysSetgid => Some(144),
        Syscall::SysSetgroups => Some(159),
        Syscall::SysIoctl => Some(29),
        Syscall::SysGetrandom => Some(278),
        Syscall::SysMembarrier => Some(283),
        Syscall::SysRestartSyscall => Some(128),
        Syscall::SysOpen => None,
        Syscall::SysPoll => None,
        Syscall::SysPipe => None,
        Syscall::SysAccess => None,
        Syscall::SysUnlink => None,
        Syscall::SysReadlink => None,
        Syscall::SysEpollWait => None,
        Syscall::SysFork => None,
        Syscall::SysArchPrctl => None,
    }
}

/// Its number on `arch`, if there is one.
pub open spec fn syscall_number(c: Syscall, arch: Arch) -> Option<i64> {
    match arch {
        Arch::X86_64 => Some(x86_64_number(c)),
        Arch::Aarch64 => aarch64_number(c),
    }
}

impl Syscall {
    pub fn number(self, arch: Arch) -> (n: Option<i64>)
        ensures
            n == syscall_number(self, arch),
            n is Some ==> 0 <= n->0 <= u32::MAX,
    {
        let (x86_64, aarch64): (i64, Option<i64>) = match self {
            Syscall::SysRead => (0, Some(63)),
            Syscall::SysWrite => (1, Some(64)),
            Syscall::SysClose => (3, Some(57)),
            Syscall::SysLseek => (8, Some(62)),
            Syscall::SysPread64 => (17, Some(67)),
            Syscall::SysReadv => (19, Some(65)),
            Syscall::SysWritev => (20, Some(66)),
            Syscall::SysMmap => (9, Some(222)),
            Syscall::SysMunmap => (11, Some(215)),
            Syscall::SysMprotect => (10, Some(226)),
            Syscall::SysBrk => (12, Some(214)),
            Syscall::SysMadvise => (28, Some(233)),
            Syscall::SysGetpid => (39, Some(172)),
            Syscall::SysGettid => (186, Some(178)),
            Syscall::SysGetuid => (102, Some(174)),
            Syscall::SysGeteuid => (107, Some(175)),
            Syscall::SysGetgid => (104, Some(176)),
            Syscall::SysGetegid => (108, Some(177)),
            Syscall::SysGetppid => (110, Some(173)),
            Syscall::SysClockGettime => (228, Some(113)),
            Syscall::SysClockNanosleep => (230, Some(115)),
            Syscall::SysNanosleep => (35, Some(101)),
            Syscall::SysGettimeofday => (96, Some(169)),
            Syscall::SysOpenat => (257, Some(56)),
            Syscall::SysFstat => (5, Some(80)),
            Syscall::SysStatx => (332, Some(291)),
            Syscall::SysNewfstatat => (262, Some(79)),
            Syscall::SysFchmodat => (268, Some(53)),
            Syscall::SysFaccessat => (269, Some(48)),
            Syscall::SysFaccessat2 => (439, Some(439)),
            Syscall::SysFcntl => (72, Some(25)),
            Syscall::SysDup => (32, Some(23)),
            Syscall::SysDup3 => (292, Some(24)),
            Syscall::SysPipe2 => (293, Some(59)),
            Syscall::SysReadlinkat => (267, Some(78)),
            Syscall::SysUnlinkat => (263, Some(35)),
            Syscall::SysRenameat2 => (316, Some(276)),
            Syscall::SysGetdents64 => (217, Some(61)),
            Syscall::SysFtruncate => (77, Some(46)),
            Syscall::SysFsync => (74, Some(82)),
            Syscall::SysSocket => (41, Some(198)),
            Syscall::SysSocketpair => (53, Some(199)),
            Syscall::SysConnect => (42, Some(203)),
            Syscall::SysListen => (50, Some(201)),
            Syscall::SysAccept4 => (288, Some(242)),
            Syscall::SysBind => (49, Some(200)),
            Syscall::SysSendto => (44, Some(206)),
            Syscall::SysRecvfrom => (45, Some(207)),
            Syscall::SysSendmsg => (46, Some(211)),
            Syscall::SysRecvmsg => (47, Some(212)),
            Syscall::SysShutdown => (48, Some(210)),
            Syscall::SysGetsockname => (51, Some(204)),
            Syscall::SysGetpeername => (52, Some(205)),
            Syscall::SysGetsockopt => (55, Some(209)),
            Syscall::SysSetsockopt => (54, Some(208)),
            Syscall::SysEpollCreate1 => (291, Some(20)),
            Syscall::SysEpollCtl => (233, Some(21)),
            Syscall::SysEpollPwait => (281, Some(22)),
            Syscall::SysEpollPwait2 => (441, Some(441)),
            Syscall::SysPpoll => (271, Some(73)),
            Syscall::SysEventfd2 => (290, Some(19)),
            Syscall::SysRtSigaction => (13, Some(134)),
            Syscall::SysRtSigprocmask => (14, Some(135)),
            Syscall::SysRtSigreturn => (15, Some(139)),
            Syscall::SysRtSigtimedwait => (128, Some(137)),
            Syscall::SysSigaltstack => (131, Some(132)),
            Syscall::SysTkill => (200, Some(130)),
            Syscall::SysTgkill => (234, Some(131)),
            Syscall::SysKill => (62, Some(129)),
            Syscall::SysClone => (56, Some(220)),
            Syscall::SysClone3 => (435, Some(435)),
            Syscall::SysFutex => (202, Some(98)),
            Syscall::SysSetRobustList => (273, Some(99)),
            Syscall::SysGetRobustList => (274, Some(100)),
            Syscall::SysSetTidAddress => (218, Some(96)),
            Syscall::SysPrctl => (157, Some(167)),
            Syscall::SysSchedYield => (24, Some(124)),
            Syscall::SysSchedGetaffinity => (204, Some(123)),
            Syscall::SysRseq => (334, Some(293)),
            Syscall::SysExit => (60, Some(93)),
            Syscall::SysExitGroup => (231, Some(94)),
            Syscall::SysExecve => (59, Some(221)),
            Syscall::SysPrlimit64 => (302, Some(261)),
            Syscall::SysWait4 => (61, Some(260)),
            Syscall::SysPidfdOpen => (434, Some(434)),
            Syscall::SysPidfdSendSignal => (424, Some(424)),
            Syscall::SysSeccomp => (317, Some(277)),
            Syscall::SysSetuid => (105, Some(146)),
            Syscall::SysSetgid => (106, Some(144)),
            Syscall::SysSetgroups => (116, Some(159)),
            Syscall::SysIoctl => (16, Some(29)),
            Syscall::SysGetrandom => (318, Some(278)),
            Syscall::SysMembarrier => (324, Some(283)),
            Syscall::SysRestartSyscall => (219, Some(128)),
            Syscall::SysOpen => (2, None),
            Syscall::SysPoll => (7, None),
            Syscall::SysPipe => (22, None),
            Syscall::SysAccess => (21, None),
            Syscall::SysUnlink => (87, None),
            Syscall::SysReadlink => (89, None),
            Syscall::SysEpollWait => (232, None),
            Syscall::SysFork => (57, None),
            Syscall::SysArchPrctl => (158, None),
        };
        match arch {
            Arch::X86_64 => Some(x86_64),
            Arch::Aarch64 => aarch64,
        }
    }
}

/// What a worker needs once it runs, and what its successor needs to start under the same filter.
pub open spec fn allowed_calls() -> Seq<Syscall> {
    seq![
        Syscall::SysRead,
        Syscall::SysWrite,
        Syscall::SysClose,
        Syscall::SysLseek,
        Syscall::SysPread64,
        Syscall::SysReadv,
        Syscall::SysWritev,
        Syscall::SysMmap,
        Syscall::SysMunmap,
        Syscall::SysMprotect,
        Syscall::SysBrk,
        Syscall::SysMadvise,
        Syscall::SysGetpid,
        Syscall::SysGettid,
        Syscall::SysGetuid,
        Syscall::SysGeteuid,
        Syscall::SysGetgid,
        Syscall::SysGetegid,
        Syscall::SysGetppid,
        Syscall::SysClockGettime,
        Syscall::SysClockNanosleep,
        Syscall::SysNanosleep,
        Syscall::SysGettimeofday,
        Syscall::SysOpenat,
        Syscall::SysFstat,
        Syscall::SysStatx,
        Syscall::SysNewfstatat,
        Syscall::SysFchmodat,
        Syscall::SysFaccessat,
        Syscall::SysFaccessat2,
        Syscall::SysFcntl,
        Syscall::SysDup,
        Syscall::SysDup3,
        Syscall::SysPipe2,
        Syscall::SysReadlinkat,
        Syscall::SysUnlinkat,
        Syscall::SysRenameat2,
        Syscall::SysGetdents64,
        Syscall::SysFtruncate,
        Syscall::SysFsync,
        Syscall::SysSocket,
        Syscall::SysSocketpair,
        Syscall::SysConnect,
        Syscall::SysListen,
        Syscall::SysAccept4,
        Syscall::SysBind,
        Syscall::SysSendto,
        Syscall::SysRecvfrom,
        Syscall::SysSendmsg,
        Syscall::SysRecvmsg,
        Syscall::SysShutdown,
        Syscall::SysGetsockname,
        Syscall::SysGetpeername,
        Syscall::SysGetsockopt,
        Syscall::SysSetsockopt,
        Syscall::SysEpollCreate1,
        Syscall::SysEpollCtl,
        Syscall::SysEpollPwait,
        Syscall::SysEpollPwait2,
        Syscall::SysPpoll,
        Syscall::SysEventfd2,
        Syscall::SysRtSigaction,
        Syscall::SysRtSigprocmask,
        Syscall::SysRtSigreturn,
        Syscall::SysRtSigtimedwait,
        Syscall::SysSigaltstack,
        Syscall::SysTkill,
        Syscall::SysTgkill,
        Syscall::SysKill,
        Syscall::SysClone,
        Syscall::SysClone3,
        Syscall::SysFutex,
        Syscall::SysSetRobustList,
        Syscall::SysGetRobustList,
        Syscall::SysSetTidAddress,
        Syscall::SysPrctl,
        Syscall::SysSchedYield,
        Syscall::SysSchedGetaffinity,
        Syscall::SysRseq,
        Syscall::SysExit,
        Syscall::SysExitGroup,
        Syscall::SysExecve,
        Syscall::SysPrlimit64,
        Syscall::SysWait4,
        Syscall::SysPidfdOpen,
        Syscall::SysPidfdSendSignal,
        Syscall::SysSeccomp,
        Syscall::SysSetuid,
        Syscall::SysSetgid,
        Syscall::SysSetgroups,
        Syscall::SysIoctl,
        Syscall::SysGetrandom,
        Syscall::SysMembarrier,
        Syscall::SysRestartSyscall,
        Syscall::SysOpen,
        Syscall::SysPoll,
        Syscall::SysPipe,
        Syscall::SysAccess,
        Syscall::SysUnlink,
        Syscall::SysReadlink,
        Syscall::SysEpollWait,
        Syscall::SysFork,
        Syscall::SysArchPrctl,
    ]
}

/// The calls that a confined worker may make.
pub fn worker_syscalls() -> (v: Vec<Syscall>)
    ensures
        v@ == allowed_calls(),
{
    vec![
        // input and output
        Syscall::SysRead,
        Syscall::SysWrite,
        Syscall::SysClose,
        Syscall::SysLseek,
        Syscall::SysPread64,
        Syscall::SysReadv,
        Syscall::SysWritev,
        // memory
        Syscall::SysMmap,
        Syscall::SysMunmap,
        Syscall::SysMprotect,
        Syscall::SysBrk,
        Syscall::SysMadvise,
        // identity
        Syscall::SysGetpid,
        Syscall::SysGettid,
        Syscall::SysGetuid,
        Syscall::SysGeteuid,
        Syscall::SysGetgid,
        Syscall::SysGetegid,
        Syscall::SysGetppid,
        // time
        Syscall::SysClockGettime,
        Syscall::SysClockNanosleep,
        Syscall::SysNanosleep,
        Syscall::SysGettimeofday,
        // files: certificates, logs, sockets, the executable
        Syscall::SysOpenat,
        Syscall::SysFstat,
        Syscall::SysStatx,
        Syscall::SysNewfstatat,
        Syscall::SysFchmodat,
        Syscall::SysFaccessat,
        Syscall::SysFaccessat2,
        Syscall::SysFcntl,
        Syscall::SysDup,
        Syscall::SysDup3,
        Syscall::SysPipe2,
        Syscall::SysReadlinkat,
        Syscall::SysUnlinkat,
        Syscall::SysRenameat2,
        Syscall::SysGetdents64,
        Syscall::SysFtruncate,
        Syscall::SysFsync,
        // sockets
        Syscall::SysSocket,
        Syscall::SysSocketpair,
        Syscall::SysConnect,
        Syscall::SysListen,
        Syscall::SysAccept4,
        Syscall::SysBind,
        Syscall::SysSendto,
        Syscall::SysRecvfrom,
        Syscall::SysSendmsg,
        Syscall::SysRecvmsg,
        Syscall::SysShutdown,
        Syscall::SysGetsockname,
        Syscall::SysGetpeername,
        Syscall::SysGetsockopt,
        Syscall::SysSetsockopt,
        // waiting
        Syscall::SysEpollCreate1,
        Syscall::SysEpollCtl,
        Syscall::SysEpollPwait,
        Syscall::SysEpollPwait2,
        Syscall::SysPpoll,
        Syscall::SysEventfd2,
        // signals
        Syscall::SysRtSigaction,
        Syscall::SysRtSigprocmask,
        Syscall::SysRtSigreturn,
        Syscall::SysRtSigtimedwait,
        Syscall::SysSigaltstack,
        Syscall::SysTkill,
        Syscall::SysTgkill,
        Syscall::SysKill,
        // threads
        Syscall::SysClone,
        Syscall::SysClone3,
        Syscall::SysFutex,
        Syscall::SysSetRobustList,
        Syscall::SysGetRobustList,
        Syscall::SysSetTidAddress,
        Syscall::SysPrctl,
        Syscall::SysSchedYield,
        Syscall::SysSchedGetaffinity,
        Syscall::SysRseq,
        Syscall::SysExit,
        Syscall::SysExitGroup,
        // upgrade: the successor inherits the filter, drops privileges and installs its own
        Syscall::SysExecve,
        Syscall::SysPrlimit64,
        Syscall::SysWait4,
        Syscall::SysPidfdOpen,
        Syscall::SysPidfdSendSignal,
        Syscall::SysSeccomp,
        Syscall::SysSetuid,
        Syscall::SysSetgid,
        Syscall::SysSetgroups,
        // the rest
        Syscall::SysIoctl,
        Syscall::SysGetrandom,
        Syscall::SysMembarrier,
        Syscall::SysRestartSyscall,
        // older forms of calls above, which libc still makes on x86_64
        Syscall::SysOpen,
        Syscall::SysPoll,
        Syscall::SysPipe,
        Syscall::SysAccess,
        Syscall::SysUnlink,
        Syscall::SysReadlink,
        Syscall::SysEpollWait,
        Syscall::SysFork,
        Syscall::SysArchPrctl,
    ]
}
/// The numbers of those calls that `arch` has, in order.
pub open spec fn numbers_on(calls: Seq<Syscall>, arch: Arch) -> Seq<i64>
    decreases calls.len(),
{
    if calls.len() == 0 {
        seq![]
    } else {
        match syscall_number(calls.last(), arch) {
            Some(n) => numbers_on(calls.drop_last(), arch).push(n),
            None => numbers_on(calls.drop_last(), arch),
        }
    }
}

/// The numbers on `arch` of the calls that a confined worker may make.
pub fn worker_syscall_numbers(arch: Arch) -> (v: Vec<i64>)
    ensures
        v@ == numbers_on(allowed_calls(), arch),
        v@.len() <= allowed_calls().len(),
        forall|i: int| 0 <= i < v@.len() ==> 0 <= #[trigger] v@[i] <= u32::MAX,
{
    let calls = worker_syscalls();
    let mut v: Vec<i64> = Vec::new();
    let mut i: usize = 0;
    proof {
        assert(calls@.take(0) =~= seq![]);
    }
    while i < calls.len()
        invariant
            i <= calls@.len(),
            v@.len() <= i,
            v@ == numbers_on(calls@.take(i as int), arch),
            forall|j: int| 0 <= j < v@.len() ==> 0 <= #[trigger] v@[j] <= u32::MAX,
        decreases calls.len() - i,
    {
        proof {
            let next = calls@.take(i + 1);
            assert(next.drop_last() =~= calls@.take(i as int));
            assert(next.last() == calls@[i as int]);
        }
        if let Some(n) = calls[i].number(arch) {
            v.push(n);
        }
        i = i + 1;
    }
    proof {
        assert(calls@.take(calls@.len() as int) =~= calls@);
    }
    v
}

/// Every call that a filter knows of is allowed.
#[verifier::rlimit(50)]
pub proof fn every_known_call_is_allowed(c: Syscall)
    ensures
        allowed_calls().contains(c),
{
    let place: int = match c {
        Syscall::SysRead => 0,
        Syscall::SysWrite => 1,
        Syscall::SysClose => 2,
        Syscall::SysLseek => 3,
        Syscall::SysPread64 => 4,
        Syscall::SysReadv => 5,
        Syscall::SysWritev => 6,
        Syscall::SysMmap => 7,
        Syscall::SysMunmap => 8,
        Syscall::SysMprotect => 9,
        Syscall::SysBrk => 10,
        Syscall::SysMadvise => 11,
        Syscall::SysGetpid => 12,
        Syscall::SysGettid => 13,
        Syscall::SysGetuid => 14,
        Syscall::SysGeteuid => 15,
        Syscall::SysGetgid => 16,
        Syscall::SysGetegid => 17,
        Syscall::SysGetppid => 18,
        Syscall::SysClockGettime => 19,
        Syscall::SysClockNanosleep => 20,
        Syscall::SysNanosleep => 21,
        Syscall::SysGettimeofday => 22,
        Syscall::SysOpenat => 23,
        Syscall::SysFstat => 24,
        Syscall::SysStatx => 25,
        Syscall::SysNewfstatat => 26,
        Syscall::SysFchmodat => 27,
        Syscall::SysFaccessat => 28,
        Syscall::SysFaccessat2 => 29,
        Syscall::SysFcntl => 30,
        Syscall::SysDup => 31,
        Syscall::SysDup3 => 32,
        Syscall::SysPipe2 => 33,
        Syscall::SysReadlinkat => 34,
        Syscall::SysUnlinkat => 35,
        Syscall::SysRenameat2 => 36,
        Syscall::SysGetdents64 => 37,
        Syscall::SysFtruncate => 38,
        Syscall::SysFsync => 39,
        Syscall::SysSocket => 40,
        Syscall::SysSocketpair => 41,
        Syscall::SysConnect => 42,
        Syscall::SysListen => 43,
        Syscall::SysAccept4 => 44,
        Syscall::SysBind => 45,
        Syscall::SysSendto => 46,
        Syscall::SysRecvfrom => 47,
        Syscall::SysSendmsg => 48,
        Syscall::SysRecvmsg => 49,
        Syscall::SysShutdown => 50,
        Syscall::SysGetsockname => 51,
        Syscall::SysGetpeername => 52,
        Syscall::SysGetsockopt => 53,
        Syscall::SysSetsockopt => 54,
        Syscall::SysEpollCreate1 => 55,
        Syscall::SysEpollCtl => 56,
        Syscall::SysEpollPwait => 57,
        Syscall::SysEpollPwait2 => 58,
        Syscall::SysPpoll => 59,
        Syscall::SysEventfd2 => 60,
        Syscall::SysRtSigaction => 61,
        Syscall::SysRtSigprocmask => 62,
        Syscall::SysRtSigreturn => 63,
        Syscall::SysRtSigtimedwait => 64,
        Syscall::SysSigaltstack => 65,
        Syscall::SysTkill => 66,
        Syscall::SysTgkill => 67,
        Syscall::SysKill => 68,
        Syscall::SysClone => 69,
        Syscall::SysClone3 => 70,
        Syscall::SysFutex => 71,
        Syscall::SysSetRobustList => 72,
        Syscall::SysGetRobustList => 73,
        Syscall::SysSetTidAddress => 74,
        Syscall::SysPrctl => 75,
        Syscall::SysSchedYield => 76,
        Syscall::SysSchedGetaffinity => 77,
        Syscall::SysRseq => 78,
        Syscall::SysExit => 79,
        Syscall::SysExitGroup => 80,
        Syscall::SysExecve => 81,
        Syscall::SysPrlimit64 => 82,
        Syscall::SysWait4 => 83,
        Syscall::SysPidfdOpen => 84,
        Syscall::SysPidfdSendSignal => 85,
        Syscall::SysSeccomp => 86,
        Syscall::SysSetuid => 87,
        Syscall::SysSetgid => 88,
        Syscall::SysSetgroups => 89,
        Syscall::SysIoctl => 90,
        Syscall::SysGetrandom => 91,
        Syscall::SysMembarrier => 92,
        Syscall::SysRestartSyscall => 93,
        Syscall::SysOpen => 94,
        Syscall::SysPoll => 95,
        Syscall::SysPipe => 96,
        Syscall::SysAccess => 97,
        Syscall::SysUnlink => 98,
        Syscall::SysReadlink => 99,
        Syscall::SysEpollWait => 100,
        Syscall::SysFork => 101,
        Syscall::SysArchPrctl => 102,
    };
    assert(allowed_calls()[place] == c);
}

/// The numbers of a list of calls are those that the machine has, in order: a call that it does
/// not have is left out, and no other.
pub proof fn missing_calls_are_left_out(calls: Seq<Syscall>, arch: Arch)
    ensures
        numbers_on(calls, arch) == calls.filter_map(|c: Syscall| syscall_number(c, arch)),
    decreases calls.len(),
{
    if calls.len() > 0 {
        missing_calls_are_left_out(calls.drop_last(), arch);
        assert(numbers_on(calls, arch) =~= calls.filter_map(
            |c: Syscall| syscall_number(c, arch),
        ));
    }
}

} // verus!
