use vstd::prelude::*;

use crate::brk::{Brk, BRK_PAGES};
use crate::address::VirtAddr;
use crate::elf::{ProgramHeader, ProgramHeaderFlags, ProgramHeaderType};
use crate::errors::LoaderError;
use crate::page::{PagesAsSlice, PinnedHeapPages};
use crate::page_table_entry::XWRMode;
use crate::page_tables::{MappingKind, RootPageTableHolder, UserMapping};
use crate::util::minimum_amount_of_pages;
use crate::headers::{AT_NULL, AT_PAGESZ};
use crate::page::PAGE_SIZE;
use crate::util::{align_up, align_up_spec};
use vstd::string::StringSliceAdditionalSpecFns;

verus! {

/// Highest address of a user stack (inclusive).
pub const STACK_START: usize = usize::MAX;

/// Pages of a user stack.
pub const STACK_SIZE_PAGES: usize = 4;

/// Bytes of a user stack.
pub const STACK_SIZE: usize = PAGE_SIZE * STACK_SIZE_PAGES;

/// Lowest address of a user stack.
pub const STACK_END: usize = STACK_START - STACK_SIZE + 1;

/// The eight little-endian bytes of `w`.
pub open spec fn word_bytes(w: u64) -> Seq<u8> {
    Seq::new(8, |k: int| ((w >> ((8 * k) as u64)) & 0xff) as u8)
}

/// The words of `ws`, one after the other, each in little endian.
pub open spec fn words_bytes(ws: Seq<u64>) -> Seq<u8>
    decreases ws.len(),
{
    if ws.len() == 0 {
        Seq::empty()
    } else {
        words_bytes(ws.drop_last()) + word_bytes(ws.last())
    }
}

/// Bytes taken by the arguments, each followed by its terminating zero.
pub open spec fn args_len(args: Seq<Seq<u8>>) -> nat
    decreases args.len(),
{
    if args.len() == 0 {
        0
    } else {
        args_len(args.drop_last()) + args.last().len() + 1
    }
}

/// The arguments, each followed by a zero byte.
pub open spec fn args_strings(args: Seq<Seq<u8>>) -> Seq<u8>
    decreases args.len(),
{
    if args.len() == 0 {
        Seq::empty()
    } else {
        args_strings(args.drop_last()) + args.last().push(0u8)
    }
}

/// The program name and the arguments, each followed by a zero byte.
pub open spec fn argument_strings(name: Seq<u8>, args: Seq<Seq<u8>>) -> Seq<u8> {
    name.push(0u8) + args_strings(args)
}

/// Offset of the strings: `argc`, `argv` with its terminator, an empty
/// environment and a two-entry auxiliary vector come first.
pub open spec fn strings_offset(n_args: nat) -> nat {
    8 * (n_args + 2) + 48
}

/// Bytes the arguments take on the stack, rounded up to a word.
pub open spec fn arguments_length(name: Seq<u8>, args: Seq<Seq<u8>>) -> nat {
    align_up_spec(strings_offset(args.len()) + name.len() + 1 + args_len(args), 8)
}

/// The address where the argument block starts (it ends at the top of the stack).
pub open spec fn arguments_start(name: Seq<u8>, args: Seq<Seq<u8>>) -> int {
    STACK_START - arguments_length(name, args) + 1
}

/// Address of argument `i` (after the program name).
pub open spec fn arg_pointer(start: int, name: Seq<u8>, args: Seq<Seq<u8>>, i: int) -> int {
    start + strings_offset(args.len()) + name.len() + 1 + args_len(args.take(i))
}

/// The words at the start of the block: `argc`, pointers to the name and the
/// arguments, a null pointer, an empty environment, and the auxiliary vector
/// `AT_PAGESZ = 4096, AT_NULL`.
pub open spec fn argument_words(name: Seq<u8>, args: Seq<Seq<u8>>, start: int) -> Seq<u64> {
    seq![(args.len() + 1) as u64, (start + strings_offset(args.len())) as u64] + Seq::new(
        args.len(),
        |i: int| arg_pointer(start, name, args, i) as u64,
    ) + seq![0u64, 0u64, AT_PAGESZ as u64, PAGE_SIZE as u64, AT_NULL as u64, 0u64]
}

/// The whole block of program arguments as it is laid out in memory.
pub open spec fn argument_block(name: Seq<u8>, args: Seq<Seq<u8>>, start: int) -> Seq<u8> {
    words_bytes(argument_words(name, args, start)) + argument_strings(name, args)
}

/// The bytes of each argument.
pub open spec fn arg_bytes(args: Seq<&str>) -> Seq<Seq<u8>> {
    args.map_values(|s: &str| s.spec_bytes())
}

/// The layout fits in a machine word.
pub open spec fn arguments_fit(name: Seq<u8>, args: Seq<Seq<u8>>) -> bool {
    strings_offset(args.len()) + name.len() + 1 + args_len(args) + 8 <= usize::MAX
}

proof fn lemma_words_bytes_len(ws: Seq<u64>)
    ensures
        words_bytes(ws).len() == 8 * ws.len(),
    decreases ws.len(),
{
    if ws.len() > 0 {
        lemma_words_bytes_len(ws.drop_last());
    }
}

proof fn lemma_args_strings_len(args: Seq<Seq<u8>>)
    ensures
        args_strings(args).len() == args_len(args),
    decreases args.len(),
{
    if args.len() > 0 {
        lemma_args_strings_len(args.drop_last());
    }
}

proof fn lemma_args_len_mono(args: Seq<Seq<u8>>, i: int)
    requires
        0 <= i <= args.len(),
    ensures
        args_len(args.take(i)) <= args_len(args),
        i < args.len() ==> args_len(args.take(i)) + args[i].len() + 1 <= args_len(args),
    decreases args.len() - i,
{
    if i < args.len() {
        lemma_args_len_mono(args, i + 1);
        assert(args.take(i + 1).drop_last() =~= args.take(i));
    } else {
        assert(args.take(i) =~= args);
    }
}

proof fn lemma_words_bytes_first(ws: Seq<u64>)
    requires
        ws.len() > 0,
    ensures
        words_bytes(ws).take(8) == word_bytes(ws[0]),
    decreases ws.len(),
{
    lemma_words_bytes_len(ws);
    if ws.len() > 1 {
        lemma_words_bytes_first(ws.drop_last());
        lemma_words_bytes_len(ws.drop_last());
        assert(words_bytes(ws).take(8) =~= words_bytes(ws.drop_last()).take(8));
    } else {
        lemma_words_bytes_len(ws.drop_last());
        assert(words_bytes(ws.drop_last()) =~= Seq::<u8>::empty());
        assert(words_bytes(ws).take(8) =~= word_bytes(ws.last()));
    }
}

/// The argument block counts its strings: its first word, `argc`, is the
/// number of arguments plus one for the program name, and it is the first
/// eight bytes of the block.  The `argc` words after it are pointers into
/// the strings of the block (none of them null), and the word after those
/// is the null pointer that ends `argv`.
pub proof fn lemma_argc_counts_arguments(name: Seq<u8>, args: Seq<Seq<u8>>, start: int)
    requires
        0 < start,
        start + strings_offset(args.len()) + name.len() + 1 + args_len(args) <= u64::MAX,
    ensures
        argument_words(name, args, start)[0] == args.len() + 1,
        argument_block(name, args, start).take(8) == word_bytes((args.len() + 1) as u64),
        forall|i: int|
            1 <= i <= args.len() + 1 ==> start + strings_offset(args.len()) <= #[trigger] argument_words(
                name,
                args,
                start,
            )[i] < start + strings_offset(args.len()) + name.len() + 1 + args_len(args),
        argument_words(name, args, start)[args.len() + 2int] == 0,
{
    let ws = argument_words(name, args, start);
    let n = args.len();
    let so = strings_offset(n);
    let ptrs = Seq::new(n, |i: int| arg_pointer(start, name, args, i) as u64);
    assert(ws[0] == (n + 1) as u64);
    assert forall|i: int| 1 <= i <= n + 1 implies start + so <= #[trigger] ws[i] < start + so + name.len() + 1
        + args_len(args) by {
        if i >= 2 {
            let j = i - 2;
            assert(ws[i] == ptrs[j]);
            lemma_args_len_mono(args, j);
        }
    }
    assert(ws[n + 2int] == 0u64);
    lemma_words_bytes_len(ws);
    lemma_words_bytes_first(ws);
    assert(argument_block(name, args, start).take(8) =~= words_bytes(ws).take(8));
}

/// Writes `w` in little endian at `pos`.
pub fn write_u64_le(buf: &mut [u8], pos: usize, w: u64)
    requires
        pos + 8 <= old(buf)@.len(),
    ensures
        final(buf)@ == old(buf)@.take(pos as int) + word_bytes(w) + old(buf)@.skip(pos + 8),
{
    let ghost b0 = buf@;
    let l = buf.len();
    let mut k: usize = 0;
    while k < 8
        invariant
            k <= 8,
            l == b0.len(),
            pos + 8 <= b0.len(),
            buf@.len() == b0.len(),
            forall|j: int| 0 <= j < pos ==> buf@[j] == b0[j],
            forall|j: int| pos + 8 <= j < b0.len() ==> buf@[j] == b0[j],
            forall|j: int| 0 <= j < k ==> buf@[pos + j] == word_bytes(w)[j],
        decreases 8 - k,
    {
        let shift: u64 = (8 * k) as u64;
        buf[pos + k] = ((w >> shift) & 0xff) as u8;
        k = k + 1;
    }
    assert(buf@ =~= b0.take(pos as int) + word_bytes(w) + b0.skip(pos + 8));
}

/// Lays out the program name and arguments at the top of `stack` the way
/// the C runtime expects them on entry (see `argument_block`) and returns the
/// address the block starts at.  Fails when the block does not fit in
/// `stack` (with at least one byte to spare).
#[verifier::spinoff_prover]
#[verifier::rlimit(40)]
pub fn set_up_arguments(stack: &mut [u8], name: &str, args: &[&str]) -> (r: Result<usize, LoaderError>)
    requires
        arguments_fit(name.spec_bytes(), arg_bytes(args@)),
    ensures
        ({
            let nb = name.spec_bytes();
            let ab = arg_bytes(args@);
            let total = arguments_length(nb, ab);
            let start = arguments_start(nb, ab);
            let block = argument_block(nb, ab, start);
            let offset = old(stack)@.len() - total;
            &&& total >= old(stack)@.len() ==> r == Err::<usize, LoaderError>(LoaderError::StackToSmall)
                && final(stack)@ == old(stack)@
            &&& total < old(stack)@.len() ==> {
                &&& r == Ok::<usize, LoaderError>(start as usize)
                &&& block.len() <= total
                &&& final(stack)@ == old(stack)@.take(offset) + block + old(stack)@.skip(
                    offset + block.len(),
                )
            }
        }),
{
    let ghost nb = name.spec_bytes();
    let ghost ab = arg_bytes(args@);
    let n = args.len();
    let argc: usize = 1 + n;
    // Strings: name and arguments, each followed by a zero byte.
    let mut strings: Vec<u8> = Vec::new();
    let name_bytes = name.as_bytes();
    let mut j: usize = 0;
    while j < name_bytes.len()
        invariant
            j <= name_bytes@.len(),
            name_bytes@ == nb,
            strings@ == nb.take(j as int),
        decreases name_bytes@.len() - j,
    {
        strings.push(name_bytes[j]);
        proof {
            assert(nb.take(j + 1) =~= nb.take(j as int).push(nb[j as int]));
        }
        j = j + 1;
    }
    strings.push(0u8);
    proof {
        assert(nb.take(nb.len() as int) =~= nb);
        assert(strings@ =~= argument_strings(nb, ab.take(0)));
        lemma_args_strings_len(ab);
    }
    let mut i: usize = 0;
    while i < n
        invariant
            n == args@.len(),
            ab == arg_bytes(args@),
            i <= n,
            strings@ == argument_strings(nb, ab.take(i as int)),
            arguments_fit(nb, ab),
        decreases n - i,
    {
        let arg = args[i].as_bytes();
        let ghost before = strings@;
        proof {
            lemma_args_strings_len(ab.take(i as int));
            lemma_args_strings_len(ab);
            lemma_args_len_mono(ab, i as int);
            assert(arg@ == ab[i as int]);
        }
        let mut k: usize = 0;
        while k < arg.len()
            invariant
                k <= arg@.len(),
                strings@ == before + arg@.take(k as int),
            decreases arg@.len() - k,
        {
            strings.push(arg[k]);
            proof {
                assert(arg@.take(k + 1) =~= arg@.take(k as int).push(arg@[k as int]));
            }
            k = k + 1;
        }
        strings.push(0u8);
        proof {
            assert(arg@.take(arg@.len() as int) =~= arg@);
            assert(ab.take(i + 1).drop_last() =~= ab.take(i as int));
            assert(strings@ =~= argument_strings(nb, ab.take(i + 1)));
        }
        i = i + 1;
    }
    proof {
        assert(ab.take(n as int) =~= ab);
        lemma_args_strings_len(ab);
    }
    let start_of_strings_offset: usize = 8 * (n + 2) + 48;
    let total_length = align_up(start_of_strings_offset + strings.len(), 8);
    if total_length >= stack.len() {
        return Err(LoaderError::StackToSmall);
    }
    let real_start: usize = STACK_START - total_length + 1;
    // Pointers to the name and each argument.
    let mut argv: Vec<usize> = Vec::new();
    let mut addr_current_string: usize = real_start + start_of_strings_offset;
    argv.push(addr_current_string);
    addr_current_string = addr_current_string.wrapping_add(name_bytes.len() + 1);
    let ghost start = real_start as int;
    let mut i: usize = 0;
    while i < n
        invariant
            n == args@.len(),
            ab == arg_bytes(args@),
            i <= n,
            start == real_start,
            name_bytes@ == nb,
            real_start + start_of_strings_offset + strings@.len() <= usize::MAX + 1,
            start_of_strings_offset == strings_offset(n as nat),
            strings@.len() == nb.len() + 1 + args_len(ab),
            argv@.len() == i + 1,
            argv@[0] == start + strings_offset(n as nat),
            forall|j: int| 0 <= j < i ==> argv@[j + 1] == arg_pointer(start, nb, ab, j),
            i < n ==> addr_current_string == arg_pointer(start, nb, ab, i as int),
        decreases n - i,
    {
        proof {
            lemma_args_len_mono(ab, i as int);
            lemma_args_len_mono(ab, i + 1);
            assert(ab.take(i + 1).drop_last() =~= ab.take(i as int));
        }
        argv.push(addr_current_string);
        let len_i = args[i].len();
        proof {
            assert(len_i == ab[i as int].len());
        }
        addr_current_string = addr_current_string.wrapping_add(len_i + 1);
        i = i + 1;
    }
    argv.push(0usize);
    let offset = stack.len() - total_length;
    let ghost words = argument_words(nb, ab, start);
    proof {
        lemma_words_bytes_len(words);
        assert(words.len() == n + 8);
    }
    // Words: argc, argv, envp, auxv.
    let mut pos: usize = offset;
    let ghost s0 = stack@;
    let stack_len = stack.len();
    write_u64_le(stack, pos, argc as u64);
    proof {
        assert(words.take(1) =~= words.take(0).push(words[0]));
        assert(words.take(1).drop_last() =~= words.take(0));
        assert(words.take(0) =~= Seq::<u64>::empty());
        assert(words_bytes(words.take(1)) =~= words_bytes(words.take(0)) + word_bytes(words[0]));
        assert(stack@ =~= s0.take(offset as int) + words_bytes(words.take(1)) + s0.skip(offset + 8));
    }
    pos = pos + 8;
    let mut w: usize = 0;
    while w < argv.len()
        invariant
            argv@.len() == n + 2,
            w <= n + 2,
            pos == offset + 8 + 8 * w,
            offset + 8 * (n + 8) <= s0.len(),
            s0.len() == stack_len,
            stack@.len() == s0.len(),
            words.len() == n + 8,
            words == argument_words(nb, ab, start),
            argv@[0] == start + strings_offset(n as nat),
            forall|j: int| 0 <= j < n ==> argv@[j + 1] == arg_pointer(start, nb, ab, j),
            argv@[n + 1] == 0,
            stack@ == s0.take(offset as int) + words_bytes(words.take(1 + w)) + s0.skip(pos as int),
        decreases n + 2 - w,
    {
        let ghost before = stack@;
        write_u64_le(stack, pos, argv[w] as u64);
        proof {
            assert(words[1 + w] == argv@[w as int] as u64);
            assert(words.take(2 + w).drop_last() =~= words.take(1 + w));
            assert(stack@ =~= s0.take(offset as int) + words_bytes(words.take(2 + w)) + s0.skip(
                pos + 8,
            ));
        }
        pos = pos + 8;
        w = w + 1;
    }
    let tail: [u64; 5] = [0u64, AT_PAGESZ as u64, PAGE_SIZE as u64, AT_NULL as u64, 0u64];
    let mut t: usize = 0;
    while t < 5
        invariant
            t <= 5,
            pos == offset + 8 * (n + 3 + t),
            offset + 8 * (n + 8) <= s0.len(),
            s0.len() == stack_len,
            stack@.len() == s0.len(),
            words.len() == n + 8,
            words == argument_words(nb, ab, start),
            tail@ == seq![0u64, AT_PAGESZ as u64, PAGE_SIZE as u64, AT_NULL as u64, 0u64],
            stack@ == s0.take(offset as int) + words_bytes(words.take(n + 3 + t)) + s0.skip(pos as int),
        decreases 5 - t,
    {
        write_u64_le(stack, pos, tail[t]);
        proof {
            assert(words[n + 3 + t] == tail@[t as int]);
            assert(words.take(n + 4 + t).drop_last() =~= words.take(n + 3 + t));
            assert(stack@ =~= s0.take(offset as int) + words_bytes(words.take(n + 4 + t)) + s0.skip(
                pos + 8,
            ));
        }
        pos = pos + 8;
        t = t + 1;
    }
    proof {
        assert(words.take(n + 8) =~= words);
    }
    // Strings.
    let ghost s1 = stack@;
    let mut c: usize = 0;
    while c < strings.len()
        invariant
            c <= strings@.len(),
            pos == offset + 8 * (n + 8),
            pos + strings@.len() <= s1.len(),
            s1.len() == stack_len,
            stack@.len() == s1.len(),
            forall|j: int| 0 <= j < pos ==> stack@[j] == s1[j],
            forall|j: int| pos + strings@.len() <= j < s1.len() ==> stack@[j] == s1[j],
            forall|j: int| 0 <= j < c ==> stack@[pos + j] == strings@[j],
        decreases strings@.len() - c,
    {
        stack[pos + c] = strings[c];
        c = c + 1;
    }
    proof {
        let block = argument_block(nb, ab, start);
        assert(stack@ =~= s1.take(pos as int) + strings@ + s1.skip(pos + strings@.len()));
        assert(s1.take(pos as int) =~= s0.take(offset as int) + words_bytes(words));
        assert(s1.skip(pos + strings@.len()) =~= s0.skip(pos + strings@.len()));
        assert(block =~= words_bytes(words) + strings@);
        assert(stack@ =~= s0.take(offset as int) + block + s0.skip(offset + block.len()));
    }
    Ok(STACK_START - total_length + 1)
}


/// A program image ready to run: its entry point, address space, the pages
/// backing it, where its arguments start, and its program break.
pub struct LoadedElf {
    pub entry_address: usize,
    pub page_tables: RootPageTableHolder,
    pub allocated_pages: Vec<PinnedHeapPages>,
    pub args_start: usize,
    pub brk: Brk,
}

/// `n` zero bytes.
pub open spec fn zeros(n: nat) -> Seq<u8> {
    Seq::new(n, |i: int| 0u8)
}

/// Whether the header describes a segment to load.
pub open spec fn is_loadable(h: ProgramHeader) -> bool {
    h.header_type == ProgramHeaderType::PtLoad
}

/// Offset of a segment inside its first page.
pub open spec fn segment_offset(h: ProgramHeader) -> nat {
    h.virtual_address as nat % PAGE_SIZE as nat
}

/// Pages that hold a segment (counting from the start of its first page).
pub open spec fn segment_pages(h: ProgramHeader) -> nat {
    align_up_spec((segment_offset(h) + h.memory_size) as nat, PAGE_SIZE as nat) / (PAGE_SIZE as nat)
}

/// The rights a segment is mapped with.
pub open spec fn segment_mode(f: ProgramHeaderFlags) -> XWRMode {
    match f {
        ProgramHeaderFlags::RW => XWRMode::ReadWrite,
        ProgramHeaderFlags::RWX => XWRMode::ReadWriteExecute,
        ProgramHeaderFlags::RX => XWRMode::ReadExecute,
        ProgramHeaderFlags::X => XWRMode::ExecuteOnly,
        _ => XWRMode::ReadOnly,
    }
}

/// The contents of a segment's pages: its file data at the segment's offset,
/// zeros everywhere else.
pub open spec fn segment_bytes(h: ProgramHeader) -> Seq<u8> {
    zeros(segment_offset(h)) + h.data@ + zeros(
        (segment_pages(h) * PAGE_SIZE as nat - segment_offset(h) - h.data@.len()) as nat,
    )
}

/// Whether `m` maps segment `h` as the loader does (any physical pages).
pub open spec fn maps_segment(m: UserMapping, h: ProgramHeader) -> bool {
    &&& m.virtual_start == h.virtual_address - segment_offset(h)
    &&& m.size == segment_pages(h) * PAGE_SIZE as nat
    &&& m.mode == segment_mode(h.access_flags)
    &&& m.kind == MappingKind::Load
}

/// The loadable headers, in order.
pub open spec fn loadable_headers(hs: Seq<ProgramHeader>) -> Seq<ProgramHeader>
    decreases hs.len(),
{
    if hs.len() == 0 {
        Seq::empty()
    } else if is_loadable(hs.last()) {
        loadable_headers(hs.drop_last()).push(hs.last())
    } else {
        loadable_headers(hs.drop_last())
    }
}

/// The end of the highest loadable segment, if there is one.
pub open spec fn data_end(hs: Seq<ProgramHeader>) -> Option<nat>
    decreases hs.len(),
{
    if hs.len() == 0 {
        None
    } else {
        let rest = data_end(hs.drop_last());
        let h = hs.last();
        if is_loadable(h) {
            let e = h.virtual_address + h.memory_size;
            match rest {
                Some(r) => Some(if r >= e { r } else { e as nat }),
                None => Some(e as nat),
            }
        } else {
            rest
        }
    }
}

/// What the loader needs of a loadable segment: its memory is at least its
/// data, it is not write-only or write-execute, it covers at least one page,
/// and its addresses and sizes fit in a word.
pub open spec fn segment_loadable(h: ProgramHeader) -> bool {
    &&& h.memory_size >= h.data@.len()
    &&& h.access_flags != ProgramHeaderFlags::W
    &&& h.access_flags != ProgramHeaderFlags::WX
    &&& h.virtual_address + h.memory_size <= u64::MAX
    &&& h.virtual_address <= usize::MAX
    &&& segment_offset(h) + h.memory_size + PAGE_SIZE <= usize::MAX
    &&& segment_offset(h) + h.memory_size > 0
    &&& (segment_pages(h) + 1) * PAGE_SIZE <= usize::MAX
}

/// What the loader needs of all headers: every loadable segment can be
/// loaded, and the break area after the highest one fits below the top of
/// the address space.
pub open spec fn headers_loadable(hs: Seq<ProgramHeader>) -> bool {
    &&& forall|i: int| 0 <= i < hs.len() && is_loadable(#[trigger] hs[i]) ==> segment_loadable(hs[i])
    &&& match data_end(hs) {
        Some(e) => align_up_spec(e, PAGE_SIZE as nat) + BRK_PAGES * PAGE_SIZE <= usize::MAX,
        None => true,
    }
}

proof fn lemma_data_end_bound(hs: Seq<ProgramHeader>, i: int)
    requires
        0 <= i < hs.len(),
        is_loadable(hs[i]),
    ensures
        data_end(hs) is Some,
        data_end(hs)->Some_0 >= hs[i].virtual_address + hs[i].memory_size,
    decreases hs.len(),
{
    if i < hs.len() - 1 {
        lemma_data_end_bound(hs.drop_last(), i);
    }
}

/// Mapping `m` maps onto the pages `p`, which start on a page boundary.
pub open spec fn backed_by(m: UserMapping, p: PinnedHeapPages) -> bool {
    &&& m.physical_start == p.address()
    &&& p.address() % PAGE_SIZE == 0
}

/// `elf` is what loading the program with headers `hs` and entry point
/// `entry_point` gives, started with name `nb` and arguments `ab`: the stack
/// holding the argument block at its top, one mapping per loadable segment
/// holding its bytes, and the break area after the data.
pub open spec fn loaded_from(elf: LoadedElf, hs: Seq<ProgramHeader>, entry_point: u64, nb: Seq<u8>, ab: Seq<
    Seq<u8>,
>) -> bool {
    let loads = loadable_headers(hs);
    let total = arguments_length(nb, ab);
    let start = arguments_start(nb, ab);
    let block = argument_block(nb, ab, start);
    &&& total < STACK_SIZE
    &&& elf.entry_address == entry_point
    &&& elf.args_start == start
    &&& elf.allocated_pages@.len() == loads.len() + 1 + if loads.len() > 0 { 1int } else { 0 }
    &&& elf.page_tables.mappings().len() == elf.allocated_pages@.len()
    &&& forall|k: int| 0 <= k < elf.allocated_pages@.len() ==> backed_by(
        #[trigger] elf.page_tables.mappings()[k],
        elf.allocated_pages@[k],
    )
    &&& elf.allocated_pages@[0].bytes() == zeros((STACK_SIZE - total) as nat) + block + zeros((total - block.len()) as nat)
    &&& elf.page_tables.mappings()[0].virtual_start == STACK_END
    &&& elf.page_tables.mappings()[0].size == STACK_SIZE
    &&& elf.page_tables.mappings()[0].mode == XWRMode::ReadWrite
    &&& elf.page_tables.mappings()[0].kind == MappingKind::Stack
    &&& forall|k: int| 0 <= k < loads.len() ==> maps_segment(
        #[trigger] elf.page_tables.mappings()[k + 1],
        loads[k],
    ) && elf.allocated_pages@[k + 1].bytes() == segment_bytes(loads[k])
    &&& match data_end(hs) {
        Some(e) => {
            let b = align_up_spec(e, PAGE_SIZE as nat);
            &&& elf.brk.start() == b && elf.brk.current() == b
            &&& elf.brk.end() == b + BRK_PAGES * PAGE_SIZE
            &&& elf.page_tables.mappings()[loads.len() + 1int].virtual_start == b
            &&& elf.page_tables.mappings()[loads.len() + 1int].size == BRK_PAGES * PAGE_SIZE
            &&& elf.page_tables.mappings()[loads.len() + 1int].mode == XWRMode::ReadWrite
            &&& elf.page_tables.mappings()[loads.len() + 1int].kind == MappingKind::Brk
            &&& elf.allocated_pages@[loads.len() + 1int].bytes() == zeros((BRK_PAGES * PAGE_SIZE) as nat)
        },
        None => elf.brk.start() == 0 && elf.brk.current() == 0 && elf.brk.end() == 1,
    }
}

/// Builds the address space of a program: a four-page stack at the top of
/// the address space holding the arguments (see `set_up_arguments`), one
/// mapping per loadable segment backed by fresh pages that hold its data at
/// the right offset, and, when there is a segment, a break area after the
/// highest one.  Fails when the arguments do not fit on the stack.
#[verifier::spinoff_prover]
#[verifier::rlimit(40)]
pub fn load_elf(
    program_headers: &Vec<ProgramHeader>,
    entry_point: u64,
    name: &str,
    args: &[&str],
) -> (r: Result<LoadedElf, LoaderError>)
    requires
        arguments_fit(name.spec_bytes(), arg_bytes(args@)),
        headers_loadable(program_headers@),
        entry_point <= usize::MAX,
    ensures
        match r {
            Err(e) => e == LoaderError::StackToSmall && arguments_length(name.spec_bytes(), arg_bytes(args@))
                >= STACK_SIZE,
            Ok(elf) => loaded_from(elf, program_headers@, entry_point, name.spec_bytes(), arg_bytes(args@)),
        },
{
    let ghost nb = name.spec_bytes();
    let ghost ab = arg_bytes(args@);
    let ghost hs = program_headers@;
    let mut page_tables = RootPageTableHolder::new();
    let mut allocated_pages: Vec<PinnedHeapPages> = Vec::new();
    let mut stack = PinnedHeapPages::new(STACK_SIZE_PAGES);
    let args_start = match set_up_arguments(stack.as_u8_slice(), name, args) {
        Ok(a) => a,
        Err(e) => {
            return Err(e);
        },
    };
    proof {
        let total = arguments_length(nb, ab);
        let block = argument_block(nb, ab, arguments_start(nb, ab));
        let z = zeros(STACK_SIZE as nat);
        assert(z.take((STACK_SIZE - total) as int) =~= zeros((STACK_SIZE - total) as nat));
        assert(z.skip(STACK_SIZE - total + block.len()) =~= zeros((total - block.len()) as nat));
    }
    let stack_addr = stack.addr();
    allocated_pages.push(stack);
    page_tables.map_userspace(STACK_END, stack_addr, STACK_SIZE, XWRMode::ReadWrite, MappingKind::Stack);
    let ghost stack_bytes = allocated_pages@[0].bytes();
    let mut bss_end: Option<u64> = None;
    let mut i: usize = 0;
    proof {
        assert(hs.take(0) =~= Seq::<ProgramHeader>::empty());
    }
    while i < program_headers.len()
        invariant
            hs == program_headers@,
            headers_loadable(hs),
            i <= hs.len(),
            bss_end == match data_end(hs.take(i as int)) {
                Some(e) => Some(e as u64),
                None => None::<u64>,
            },
            forall|e: nat| data_end(hs.take(i as int)) == Some(e) ==> e <= u64::MAX,
            allocated_pages@.len() == loadable_headers(hs.take(i as int)).len() + 1,
            page_tables.mappings().len() == allocated_pages@.len(),
            forall|k: int| 0 <= k < allocated_pages@.len() ==> backed_by(
                #[trigger] page_tables.mappings()[k],
                allocated_pages@[k],
            ),
            allocated_pages@[0].bytes() == stack_bytes,
            page_tables.mappings()[0].virtual_start == STACK_END,
            page_tables.mappings()[0].size == STACK_SIZE,
            page_tables.mappings()[0].mode == XWRMode::ReadWrite,
            page_tables.mappings()[0].kind == MappingKind::Stack,
            forall|k: int|
                0 <= k < loadable_headers(hs.take(i as int)).len() ==> maps_segment(
                    #[trigger] page_tables.mappings()[k + 1],
                    loadable_headers(hs.take(i as int))[k],
                ) && allocated_pages@[k + 1].bytes() == segment_bytes(
                    loadable_headers(hs.take(i as int))[k],
                ),
        decreases hs.len() - i,
    {
        let h = &program_headers[i];
        proof {
            assert(hs.take(i + 1).drop_last() =~= hs.take(i as int));
            assert(hs.take(i + 1).last() == hs[i as int]);
        }
        if h.header_type == ProgramHeaderType::PtLoad {
            proof {
                assert(is_loadable(hs[i as int]));
                assert(segment_loadable(hs[i as int]));
            }
            let real_size: usize = h.memory_size as usize;
            let offset: usize = (h.virtual_address as usize) % PAGE_SIZE;
            proof {
                crate::util::lemma_min_pages_mono(real_size as nat, (offset + real_size) as nat);
                crate::util::lemma_align_up_properties((offset + real_size) as nat, PAGE_SIZE as nat);
                crate::util::lemma_align_up_properties(real_size as nat, PAGE_SIZE as nat);
            }
            let mut size_in_pages = minimum_amount_of_pages(real_size);
            size_in_pages = size_in_pages + (minimum_amount_of_pages(offset + real_size)
                - minimum_amount_of_pages(real_size));
            proof {
                assert(size_in_pages == segment_pages(hs[i as int]));
                crate::util::lemma_pages_cover((offset + real_size) as nat);
            }
            let mut pages = PinnedHeapPages::new(size_in_pages);
            pages.fill(h.data.as_slice(), offset);
            proof {
                let z = zeros((size_in_pages * PAGE_SIZE) as nat);
                let d = h.data@;
                assert(z.take(offset as int) =~= zeros(offset as nat));
                assert(z.skip(offset + d.len()) =~= zeros(
                    (size_in_pages * PAGE_SIZE - offset - d.len()) as nat,
                ));
                assert(pages.bytes() =~= segment_bytes(hs[i as int]));
            }
            let pages_addr = pages.addr();
            let ghost old_maps = page_tables.mappings();
            let ghost old_pages = allocated_pages@;
            allocated_pages.push(pages);
            page_tables.map_userspace(
                h.virtual_address as usize - offset,
                pages_addr,
                size_in_pages * PAGE_SIZE,
                XWRMode::from_program_header_flags(h.access_flags),
                MappingKind::Load,
            );
            let end: u64 = h.virtual_address + h.memory_size;
            bss_end = match bss_end {
                Some(b) => Some(
                    if b >= end {
                        b
                    } else {
                        end
                    },
                ),
                None => Some(end),
            };
            proof {
                let l0 = loadable_headers(hs.take(i as int));
                assert(loadable_headers(hs.take(i + 1)) == l0.push(hs[i as int]));
                assert forall|k: int|
                    0 <= k < loadable_headers(hs.take(i + 1)).len() implies maps_segment(
                    #[trigger] page_tables.mappings()[k + 1],
                    loadable_headers(hs.take(i + 1))[k],
                ) && allocated_pages@[k + 1].bytes() == segment_bytes(
                    loadable_headers(hs.take(i + 1))[k],
                ) by {
                    if k < l0.len() {
                        assert(loadable_headers(hs.take(i + 1))[k] == l0[k]);
                        assert(page_tables.mappings()[k + 1] == old_maps[k + 1]);
                        assert(allocated_pages@[k + 1] == old_pages[k + 1]);
                    } else {
                        assert(k == l0.len());
                        assert(loadable_headers(hs.take(i + 1))[k] == hs[i as int]);
                        assert(maps_segment(page_tables.mappings()[k + 1], hs[i as int]));
                        assert(allocated_pages@[k + 1].bytes() == segment_bytes(hs[i as int]));
                    }
                }
            }
        } else {
            proof {
                let l0 = loadable_headers(hs.take(i as int));
                assert(loadable_headers(hs.take(i + 1)) == l0);
                assert forall|k: int|
                    0 <= k < loadable_headers(hs.take(i + 1)).len() implies maps_segment(
                    #[trigger] page_tables.mappings()[k + 1],
                    loadable_headers(hs.take(i + 1))[k],
                ) && allocated_pages@[k + 1].bytes() == segment_bytes(
                    loadable_headers(hs.take(i + 1))[k],
                ) by {
                    assert(maps_segment(page_tables.mappings()[k + 1], l0[k]));
                }
            }
        }
        i = i + 1;
    }
    proof {
        assert(hs.take(hs.len() as int) =~= hs);
    }
    let ghost loads = loadable_headers(hs);
    let brk = match bss_end {
        Some(b) => {
            let ghost pages_before = allocated_pages@;
            let ghost maps_before = page_tables.mappings();
            let (pages, brk) = Brk::new(VirtAddr::new(b as usize), &mut page_tables);
            allocated_pages.push(pages);
            proof {
                assert forall|k: int| 0 <= k < allocated_pages@.len() implies backed_by(
                    #[trigger] page_tables.mappings()[k],
                    allocated_pages@[k],
                ) by {
                    if k < pages_before.len() {
                        assert(page_tables.mappings()[k] == maps_before[k]);
                        assert(allocated_pages@[k] == pages_before[k]);
                    }
                }
                assert(page_tables.mappings()[0] == page_tables.mappings().drop_last()[0]);
                assert forall|k: int| 0 <= k < loads.len() implies maps_segment(
                    #[trigger] page_tables.mappings()[k + 1],
                    loads[k],
                ) && allocated_pages@[k + 1].bytes() == segment_bytes(loads[k]) by {
                    assert(page_tables.mappings()[k + 1] == page_tables.mappings().drop_last()[k + 1]);
                }
            }
            brk
        },
        None => Brk::empty(),
    };
    proof {
        if loads.len() > 0 {
            lemma_data_end_some(hs);
        } else {
            lemma_data_end_none(hs);
        }
    }
    Ok(
        LoadedElf {
            entry_address: entry_point as usize,
            page_tables,
            allocated_pages,
            args_start,
            brk,
        },
    )
}

proof fn lemma_data_end_some(hs: Seq<ProgramHeader>)
    requires
        loadable_headers(hs).len() > 0,
    ensures
        data_end(hs) is Some,
    decreases hs.len(),
{
    if hs.len() > 0 && !is_loadable(hs.last()) {
        lemma_data_end_some(hs.drop_last());
    }
}

proof fn lemma_data_end_none(hs: Seq<ProgramHeader>)
    requires
        loadable_headers(hs).len() == 0,
    ensures
        data_end(hs) is None,
    decreases hs.len(),
{
    if hs.len() > 0 {
        lemma_data_end_none(hs.drop_last());
    }
}

} // verus!
