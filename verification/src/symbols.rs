//! The kernel symbols whose offsets the dumper reports, and how a symbol's
//! declaration splits into its type and its name.

use vstd::prelude::*;

use crate::text::{chars_of, cut};

verus! {

/// How many symbols the dumper looks for.
pub const EXPECTED_SYMBOL_COUNT: usize = 63;

/// The symbol at position `k` (of `0..63`) of the list that the dumper looks
/// for. It is a pair: the declaration as radare2 prints it (type, then
/// name), and a text that the enclosing `struct` line must contain for the
/// declaration to count (empty where any context will do).
pub open spec fn expected_symbol(k: int) -> (Seq<char>, Seq<char>) {
    if k == 0 {
        ("_LIST_ENTRY ActiveProcessLinks"@, ""@)
    } else if k == 1 {
        ("void * UniqueProcessId"@, ""@)
    } else if k == 2 {
        ("_LIST_ENTRY ThreadListHead"@, "struct _EPROCESS"@)
    } else if k == 3 {
        ("_PS_PROTECTION Protection"@, ""@)
    } else if k == 4 {
        ("_EX_FAST_REF Token"@, ""@)
    } else if k == 5 {
        ("_HANDLE_TABLE* ObjectTable"@, ""@)
    } else if k == 6 {
        ("char ImageFileName[15]"@, "struct _EPROCESS"@)
    } else if k == 7 {
        ("_PEB* Peb"@, "struct _EPROCESS"@)
    } else if k == 8 {
        ("int64_t CreateTime"@, "struct _EPROCESS"@)
    } else if k == 9 {
        ("int64_t ExitTime"@, "struct _EPROCESS"@)
    } else if k == 10 {
        ("_MMSUPPORT* Vm"@, "struct _EPROCESS"@)
    } else if k == 11 {
        ("uint32_t Flags"@, "struct _EPROCESS"@)
    } else if k == 12 {
        ("uint32_t DebugPort"@, "struct _EPROCESS"@)
    } else if k == 13 {
        ("uint32_t ExceptionPort"@, "struct _EPROCESS"@)
    } else if k == 14 {
        ("uint32_t Wow64Process"@, "struct _EPROCESS"@)
    } else if k == 15 {
        ("_KTRAP_FRAME* TrapFrame"@, "struct _KTHREAD"@)
    } else if k == 16 {
        ("_LIST_ENTRY ThreadListEntry"@, "struct _ETHREAD"@)
    } else if k == 17 {
        ("_CLIENT_ID Cid"@, ""@)
    } else if k == 18 {
        ("void* StartAddress"@, "struct _ETHREAD"@)
    } else if k == 19 {
        ("void* Win32StartAddress"@, "struct _ETHREAD"@)
    } else if k == 20 {
        ("int64_t KernelTime"@, "struct _KTHREAD"@)
    } else if k == 21 {
        ("int64_t UserTime"@, "struct _KTHREAD"@)
    } else if k == 22 {
        ("uint32_t ContextSwitches"@, "struct _KTHREAD"@)
    } else if k == 23 {
        ("uint32_t Priority"@, "struct _KTHREAD"@)
    } else if k == 24 {
        ("uint32_t BasePriority"@, "struct _KTHREAD"@)
    } else if k == 25 {
        ("_KWAIT_BLOCK* WaitBlockList"@, "struct _KTHREAD"@)
    } else if k == 26 {
        ("_KAPC_STATE ApcState"@, "struct _KTHREAD"@)
    } else if k == 27 {
        ("_KQUEUE* ApcQueueLock"@, "struct _KTHREAD"@)
    } else if k == 28 {
        ("_KAPC* CallbackStack"@, "struct _KTHREAD"@)
    } else if k == 29 {
        ("EtwThreatIntProvRegHandle"@, ""@)
    } else if k == 30 {
        ("_ETW_GUID_ENTRY* GuidEntry"@, ""@)
    } else if k == 31 {
        ("_TRACE_ENABLE_INFO ProviderEnableInfo"@, ""@)
    } else if k == 32 {
        ("_GUID Guid"@, "struct _ETW_GUID_ENTRY"@)
    } else if k == 33 {
        ("_KPCR* KernelProcessorControlBlock"@, ""@)
    } else if k == 34 {
        ("uint32_t CurrentPrcb"@, "struct _KPCR"@)
    } else if k == 35 {
        ("uint32_t CurrentThread"@, "struct _KPCR"@)
    } else if k == 36 {
        ("uint32_t IdleThread"@, "struct _KPCR"@)
    } else if k == 37 {
        ("_LIST_ENTRY ReadyListHead"@, "struct _KPRCB"@)
    } else if k == 38 {
        ("_LIST_ENTRY PsLoadedModuleList"@, ""@)
    } else if k == 39 {
        ("void* MmPfnDatabase"@, ""@)
    } else if k == 40 {
        ("void* HalDispatchTable"@, ""@)
    } else if k == 41 {
        ("void* KiServiceTable"@, ""@)
    } else if k == 42 {
        ("uint64_t KdDebuggerDataBlock"@, ""@)
    } else if k == 43 {
        ("uint64_t KdVersionBlock"@, ""@)
    } else if k == 44 {
        ("uint64_t SystemCall"@, "struct _KUSER_SHARED_DATA"@)
    } else if k == 45 {
        ("uint32_t TickCount"@, "struct _KUSER_SHARED_DATA"@)
    } else if k == 46 {
        ("uint32_t TickCountMultiplier"@, "struct _KUSER_SHARED_DATA"@)
    } else if k == 47 {
        ("uint32_t DirectoryTableBase"@, "struct _KPROCESS"@)
    } else if k == 48 {
        ("_LIST_ENTRY ProcessListEntry"@, "struct _KPROCESS"@)
    } else if k == 49 {
        ("uint64_t PageFrameNumber"@, "struct _MMPTE"@)
    } else if k == 50 {
        ("uint64_t Valid"@, "struct _MMPTE"@)
    } else if k == 51 {
        ("_TOKEN_SOURCE TokenSource"@, "struct _TOKEN"@)
    } else if k == 52 {
        ("uint32_t Privileges"@, "struct _TOKEN"@)
    } else if k == 53 {
        ("_DRIVER_OBJECT* DriverObject"@, ""@)
    } else if k == 54 {
        ("_DEVICE_OBJECT* DeviceObject"@, ""@)
    } else if k == 55 {
        ("_IRP* CurrentIrp"@, "struct _DEVICE_OBJECT"@)
    } else if k == 56 {
        ("uint32_t SignalState"@, "struct _KEVENT"@)
    } else if k == 57 {
        ("_LIST_ENTRY WaitListHead"@, "struct _KQUEUE"@)
    } else if k == 58 {
        ("_KSPIN_LOCK SpinLock"@, "struct _ERESOURCE"@)
    } else if k == 59 {
        ("_FAST_MUTEX FastMutex"@, ""@)
    } else if k == 60 {
        ("_KAPC* ApcListHead"@, "struct _KPRCB"@)
    } else if k == 61 {
        ("_KTIMER Timer"@, ""@)
    } else {
        ("uint64_t DueTime"@, "struct _KTIMER"@)
    }
}

/// The symbols that the dumper looks for, in order of preference.
pub open spec fn expected_symbols() -> Seq<(Seq<char>, Seq<char>)> {
    Seq::new(EXPECTED_SYMBOL_COUNT as nat, |k: int| expected_symbol(k))
}

/// The list of expected symbols, entry by entry: each declaration as
/// radare2 prints it, with the text its structure line must hold.
pub proof fn law_expected_symbols_listed()
    ensures
        expected_symbols().len() == 63,
        expected_symbols()[0] == ("_LIST_ENTRY ActiveProcessLinks"@, ""@),
        expected_symbols()[1] == ("void * UniqueProcessId"@, ""@),
        expected_symbols()[2] == ("_LIST_ENTRY ThreadListHead"@, "struct _EPROCESS"@),
        expected_symbols()[3] == ("_PS_PROTECTION Protection"@, ""@),
        expected_symbols()[4] == ("_EX_FAST_REF Token"@, ""@),
        expected_symbols()[5] == ("_HANDLE_TABLE* ObjectTable"@, ""@),
        expected_symbols()[6] == ("char ImageFileName[15]"@, "struct _EPROCESS"@),
        expected_symbols()[7] == ("_PEB* Peb"@, "struct _EPROCESS"@),
        expected_symbols()[8] == ("int64_t CreateTime"@, "struct _EPROCESS"@),
        expected_symbols()[9] == ("int64_t ExitTime"@, "struct _EPROCESS"@),
        expected_symbols()[10] == ("_MMSUPPORT* Vm"@, "struct _EPROCESS"@),
        expected_symbols()[11] == ("uint32_t Flags"@, "struct _EPROCESS"@),
        expected_symbols()[12] == ("uint32_t DebugPort"@, "struct _EPROCESS"@),
        expected_symbols()[13] == ("uint32_t ExceptionPort"@, "struct _EPROCESS"@),
        expected_symbols()[14] == ("uint32_t Wow64Process"@, "struct _EPROCESS"@),
        expected_symbols()[15] == ("_KTRAP_FRAME* TrapFrame"@, "struct _KTHREAD"@),
        expected_symbols()[16] == ("_LIST_ENTRY ThreadListEntry"@, "struct _ETHREAD"@),
        expected_symbols()[17] == ("_CLIENT_ID Cid"@, ""@),
        expected_symbols()[18] == ("void* StartAddress"@, "struct _ETHREAD"@),
        expected_symbols()[19] == ("void* Win32StartAddress"@, "struct _ETHREAD"@),
        expected_symbols()[20] == ("int64_t KernelTime"@, "struct _KTHREAD"@),
        expected_symbols()[21] == ("int64_t UserTime"@, "struct _KTHREAD"@),
        expected_symbols()[22] == ("uint32_t ContextSwitches"@, "struct _KTHREAD"@),
        expected_symbols()[23] == ("uint32_t Priority"@, "struct _KTHREAD"@),
        expected_symbols()[24] == ("uint32_t BasePriority"@, "struct _KTHREAD"@),
        expected_symbols()[25] == ("_KWAIT_BLOCK* WaitBlockList"@, "struct _KTHREAD"@),
        expected_symbols()[26] == ("_KAPC_STATE ApcState"@, "struct _KTHREAD"@),
        expected_symbols()[27] == ("_KQUEUE* ApcQueueLock"@, "struct _KTHREAD"@),
        expected_symbols()[28] == ("_KAPC* CallbackStack"@, "struct _KTHREAD"@),
        expected_symbols()[29] == ("EtwThreatIntProvRegHandle"@, ""@),
        expected_symbols()[30] == ("_ETW_GUID_ENTRY* GuidEntry"@, ""@),
        expected_symbols()[31] == ("_TRACE_ENABLE_INFO ProviderEnableInfo"@, ""@),
        expected_symbols()[32] == ("_GUID Guid"@, "struct _ETW_GUID_ENTRY"@),
        expected_symbols()[33] == ("_KPCR* KernelProcessorControlBlock"@, ""@),
        expected_symbols()[34] == ("uint32_t CurrentPrcb"@, "struct _KPCR"@),
        expected_symbols()[35] == ("uint32_t CurrentThread"@, "struct _KPCR"@),
        expected_symbols()[36] == ("uint32_t IdleThread"@, "struct _KPCR"@),
        expected_symbols()[37] == ("_LIST_ENTRY ReadyListHead"@, "struct _KPRCB"@),
        expected_symbols()[38] == ("_LIST_ENTRY PsLoadedModuleList"@, ""@),
        expected_symbols()[39] == ("void* MmPfnDatabase"@, ""@),
        expected_symbols()[40] == ("void* HalDispatchTable"@, ""@),
        expected_symbols()[41] == ("void* KiServiceTable"@, ""@),
        expected_symbols()[42] == ("uint64_t KdDebuggerDataBlock"@, ""@),
        expected_symbols()[43] == ("uint64_t KdVersionBlock"@, ""@),
        expected_symbols()[44] == ("uint64_t SystemCall"@, "struct _KUSER_SHARED_DATA"@),
        expected_symbols()[45] == ("uint32_t TickCount"@, "struct _KUSER_SHARED_DATA"@),
        expected_symbols()[46] == ("uint32_t TickCountMultiplier"@, "struct _KUSER_SHARED_DATA"@),
        expected_symbols()[47] == ("uint32_t DirectoryTableBase"@, "struct _KPROCESS"@),
        expected_symbols()[48] == ("_LIST_ENTRY ProcessListEntry"@, "struct _KPROCESS"@),
        expected_symbols()[49] == ("uint64_t PageFrameNumber"@, "struct _MMPTE"@),
        expected_symbols()[50] == ("uint64_t Valid"@, "struct _MMPTE"@),
        expected_symbols()[51] == ("_TOKEN_SOURCE TokenSource"@, "struct _TOKEN"@),
        expected_symbols()[52] == ("uint32_t Privileges"@, "struct _TOKEN"@),
        expected_symbols()[53] == ("_DRIVER_OBJECT* DriverObject"@, ""@),
        expected_symbols()[54] == ("_DEVICE_OBJECT* DeviceObject"@, ""@),
        expected_symbols()[55] == ("_IRP* CurrentIrp"@, "struct _DEVICE_OBJECT"@),
        expected_symbols()[56] == ("uint32_t SignalState"@, "struct _KEVENT"@),
        expected_symbols()[57] == ("_LIST_ENTRY WaitListHead"@, "struct _KQUEUE"@),
        expected_symbols()[58] == ("_KSPIN_LOCK SpinLock"@, "struct _ERESOURCE"@),
        expected_symbols()[59] == ("_FAST_MUTEX FastMutex"@, ""@),
        expected_symbols()[60] == ("_KAPC* ApcListHead"@, "struct _KPRCB"@),
        expected_symbols()[61] == ("_KTIMER Timer"@, ""@),
        expected_symbols()[62] == ("uint64_t DueTime"@, "struct _KTIMER"@),
{
}

/// The symbol at position `k`, as characters.
fn symbol_entry(k: usize) -> (r: (Vec<char>, Vec<char>))
    requires
        k < EXPECTED_SYMBOL_COUNT,
    ensures
        r.0@ == expected_symbol(k as int).0,
        r.1@ == expected_symbol(k as int).1,
{
    match k {
        0 => (chars_of("_LIST_ENTRY ActiveProcessLinks"), chars_of("")),
        1 => (chars_of("void * UniqueProcessId"), chars_of("")),
        2 => (chars_of("_LIST_ENTRY ThreadListHead"), chars_of("struct _EPROCESS")),
        3 => (chars_of("_PS_PROTECTION Protection"), chars_of("")),
        4 => (chars_of("_EX_FAST_REF Token"), chars_of("")),
        5 => (chars_of("_HANDLE_TABLE* ObjectTable"), chars_of("")),
        6 => (chars_of("char ImageFileName[15]"), chars_of("struct _EPROCESS")),
        7 => (chars_of("_PEB* Peb"), chars_of("struct _EPROCESS")),
        8 => (chars_of("int64_t CreateTime"), chars_of("struct _EPROCESS")),
        9 => (chars_of("int64_t ExitTime"), chars_of("struct _EPROCESS")),
        10 => (chars_of("_MMSUPPORT* Vm"), chars_of("struct _EPROCESS")),
        11 => (chars_of("uint32_t Flags"), chars_of("struct _EPROCESS")),
        12 => (chars_of("uint32_t DebugPort"), chars_of("struct _EPROCESS")),
        13 => (chars_of("uint32_t ExceptionPort"), chars_of("struct _EPROCESS")),
        14 => (chars_of("uint32_t Wow64Process"), chars_of("struct _EPROCESS")),
        15 => (chars_of("_KTRAP_FRAME* TrapFrame"), chars_of("struct _KTHREAD")),
        16 => (chars_of("_LIST_ENTRY ThreadListEntry"), chars_of("struct _ETHREAD")),
        17 => (chars_of("_CLIENT_ID Cid"), chars_of("")),
        18 => (chars_of("void* StartAddress"), chars_of("struct _ETHREAD")),
        19 => (chars_of("void* Win32StartAddress"), chars_of("struct _ETHREAD")),
        20 => (chars_of("int64_t KernelTime"), chars_of("struct _KTHREAD")),
        21 => (chars_of("int64_t UserTime"), chars_of("struct _KTHREAD")),
        22 => (chars_of("uint32_t ContextSwitches"), chars_of("struct _KTHREAD")),
        23 => (chars_of("uint32_t Priority"), chars_of("struct _KTHREAD")),
        24 => (chars_of("uint32_t BasePriority"), chars_of("struct _KTHREAD")),
        25 => (chars_of("_KWAIT_BLOCK* WaitBlockList"), chars_of("struct _KTHREAD")),
        26 => (chars_of("_KAPC_STATE ApcState"), chars_of("struct _KTHREAD")),
        27 => (chars_of("_KQUEUE* ApcQueueLock"), chars_of("struct _KTHREAD")),
        28 => (chars_of("_KAPC* CallbackStack"), chars_of("struct _KTHREAD")),
        29 => (chars_of("EtwThreatIntProvRegHandle"), chars_of("")),
        30 => (chars_of("_ETW_GUID_ENTRY* GuidEntry"), chars_of("")),
        31 => (chars_of("_TRACE_ENABLE_INFO ProviderEnableInfo"), chars_of("")),
        32 => (chars_of("_GUID Guid"), chars_of("struct _ETW_GUID_ENTRY")),
        33 => (chars_of("_KPCR* KernelProcessorControlBlock"), chars_of("")),
        34 => (chars_of("uint32_t CurrentPrcb"), chars_of("struct _KPCR")),
        35 => (chars_of("uint32_t CurrentThread"), chars_of("struct _KPCR")),
        36 => (chars_of("uint32_t IdleThread"), chars_of("struct _KPCR")),
        37 => (chars_of("_LIST_ENTRY ReadyListHead"), chars_of("struct _KPRCB")),
        38 => (chars_of("_LIST_ENTRY PsLoadedModuleList"), chars_of("")),
        39 => (chars_of("void* MmPfnDatabase"), chars_of("")),
        40 => (chars_of("void* HalDispatchTable"), chars_of("")),
        41 => (chars_of("void* KiServiceTable"), chars_of("")),
        42 => (chars_of("uint64_t KdDebuggerDataBlock"), chars_of("")),
        43 => (chars_of("uint64_t KdVersionBlock"), chars_of("")),
        44 => (chars_of("uint64_t SystemCall"), chars_of("struct _KUSER_SHARED_DATA")),
        45 => (chars_of("uint32_t TickCount"), chars_of("struct _KUSER_SHARED_DATA")),
        46 => (chars_of("uint32_t TickCountMultiplier"), chars_of("struct _KUSER_SHARED_DATA")),
        47 => (chars_of("uint32_t DirectoryTableBase"), chars_of("struct _KPROCESS")),
        48 => (chars_of("_LIST_ENTRY ProcessListEntry"), chars_of("struct _KPROCESS")),
        49 => (chars_of("uint64_t PageFrameNumber"), chars_of("struct _MMPTE")),
        50 => (chars_of("uint64_t Valid"), chars_of("struct _MMPTE")),
        51 => (chars_of("_TOKEN_SOURCE TokenSource"), chars_of("struct _TOKEN")),
        52 => (chars_of("uint32_t Privileges"), chars_of("struct _TOKEN")),
        53 => (chars_of("_DRIVER_OBJECT* DriverObject"), chars_of("")),
        54 => (chars_of("_DEVICE_OBJECT* DeviceObject"), chars_of("")),
        55 => (chars_of("_IRP* CurrentIrp"), chars_of("struct _DEVICE_OBJECT")),
        56 => (chars_of("uint32_t SignalState"), chars_of("struct _KEVENT")),
        57 => (chars_of("_LIST_ENTRY WaitListHead"), chars_of("struct _KQUEUE")),
        58 => (chars_of("_KSPIN_LOCK SpinLock"), chars_of("struct _ERESOURCE")),
        59 => (chars_of("_FAST_MUTEX FastMutex"), chars_of("")),
        60 => (chars_of("_KAPC* ApcListHead"), chars_of("struct _KPRCB")),
        61 => (chars_of("_KTIMER Timer"), chars_of("")),
        _ => (chars_of("uint64_t DueTime"), chars_of("struct _KTIMER")),
    }
}

/// `t` holds `expected_symbols()`, as characters.
pub open spec fn is_symbol_table(t: Seq<(Vec<char>, Vec<char>)>) -> bool {
    &&& t.len() == EXPECTED_SYMBOL_COUNT
    &&& forall|k: int|
        0 <= k < EXPECTED_SYMBOL_COUNT ==> {
            &&& (#[trigger] t[k]).0@ == expected_symbols()[k].0
            &&& t[k].1@ == expected_symbols()[k].1
        }
}

/// The table of `expected_symbols()`, as characters.
pub fn expected_symbols_table() -> (t: Vec<(Vec<char>, Vec<char>)>)
    ensures
        is_symbol_table(t@),
{
    let mut t: Vec<(Vec<char>, Vec<char>)> = Vec::new();
    for k in 0..EXPECTED_SYMBOL_COUNT
        invariant
            t@.len() == k,
            forall|j: int|
                0 <= j < k ==> {
                    &&& (#[trigger] t@[j]).0@ == expected_symbol(j).0
                    &&& t@[j].1@ == expected_symbol(j).1
                },
    {
        t.push(symbol_entry(k));
    }
    t
}

/// The position of the last space in `s`, or -1 where there is none.
pub open spec fn last_space(s: Seq<char>) -> int
    decreases s.len(),
{
    if s.len() == 0 {
        -1
    } else if s.last() == ' ' {
        s.len() - 1
    } else {
        last_space(s.drop_last())
    }
}

/// The type part of a declaration: the words before the last one, with the
/// spaces between them (what splitting at `' '` and joining all pieces but
/// the last with `' '` gives); empty for a single word.
pub open spec fn symbol_kind(decl: Seq<char>) -> Seq<char> {
    if last_space(decl) < 0 {
        Seq::empty()
    } else {
        decl.subrange(0, last_space(decl))
    }
}

/// The name part of a declaration: its last word (what follows the last
/// space, or all of it where there is no space).
pub open spec fn symbol_name(decl: Seq<char>) -> Seq<char> {
    decl.subrange(last_space(decl) + 1, decl.len() as int)
}

/// `last_space(s)` is a position of `s` holding a space with no space after
/// it, or -1 when `s` holds no space.
pub proof fn lemma_last_space(s: Seq<char>)
    ensures
        -1 <= last_space(s) < s.len(),
        last_space(s) >= 0 ==> s[last_space(s)] == ' ',
        forall|k: int| last_space(s) < k < s.len() ==> s[k] != ' ',
    decreases s.len(),
{
    if s.len() > 0 && s.last() != ' ' {
        lemma_last_space(s.drop_last());
        assert forall|k: int| last_space(s) < k < s.len() implies s[k] != ' ' by {
            if k < s.len() - 1 {
                assert(s[k] == s.drop_last()[k]);
            }
        }
    }
}

/// Splitting a declaration into its type and its name loses nothing: a
/// declaration of one word is its name with an empty type, and one of
/// several words is its type, a space, and its name.
pub proof fn law_kind_name_rejoin(decl: Seq<char>)
    ensures
        last_space(decl) < 0 ==> symbol_kind(decl).len() == 0 && symbol_name(decl) == decl,
        last_space(decl) >= 0 ==> symbol_kind(decl) + seq![' '] + symbol_name(decl) == decl,
        !symbol_name(decl).contains(' '),
{
    lemma_last_space(decl);
    if last_space(decl) < 0 {
        assert(symbol_name(decl) =~= decl);
    } else {
        assert(symbol_kind(decl) + seq![' '] + symbol_name(decl) =~= decl);
    }
    let n = symbol_name(decl);
    assert forall|k: int| 0 <= k < n.len() implies n[k] != ' ' by {
        assert(n[k] == decl[last_space(decl) + 1 + k]);
    }
}

/// The type and the name of the declaration `decl`.
pub fn kind_and_name(decl: &[char]) -> (r: (String, String))
    ensures
        r.0@ == symbol_kind(decl@),
        r.1@ == symbol_name(decl@),
{
    let n: usize = decl.len();
    let mut b: usize = n;
    assert(decl@.take(n as int) =~= decl@);
    while b > 0 && decl[b - 1] != ' '
        invariant
            n == decl@.len(),
            b <= n,
            last_space(decl@) == last_space(decl@.take(b as int)),
        decreases b,
    {
        assert(decl@.take(b as int).drop_last() =~= decl@.take(b - 1));
        b = b - 1;
    }
    if b == 0 {
        (String::new(), cut(decl, 0, n))
    } else {
        (cut(decl, 0, b - 1), cut(decl, b, n))
    }
}

} // verus!
