use vstd::prelude::*;

use std::collections::BTreeSet;

use crate::address::VirtAddr;
use crate::brk::Brk;
use crate::fd_table::{standard_table, FdTable};
use crate::page::{PinnedHeapPages, PAGE_SIZE};
use crate::page_table_entry::XWRMode;
use crate::page_tables::{MappingKind, RootPageTableHolder, UserMapping};
use crate::pid::Tid;
use crate::pointer::MutPtr;
use crate::elf::ProgramHeader;
use crate::errors::LoaderError;
use crate::loader::{
    arg_bytes, arguments_fit, arguments_length, headers_loadable, load_elf, loaded_from, LoadedElf,
    STACK_SIZE,
};
use crate::thread::{SchedState, Thread, ThreadState, TidCounter};
use crate::scheduler::POWERSAVE_TID;
use vstd::string::StringSliceAdditionalSpecFns;

verus! {

broadcast use {vstd::std_specs::btree::group_btree_axioms, vstd::laws_cmp::group_laws_cmp};

/// Where anonymous memory of a process is placed when no address is asked
/// for.
pub const FREE_MMAP_START_ADDRESS: u64 = 0x2000000000;

/// A process: its address space, the pages that back it, its open files, the
/// ids of its threads and its break.
pub struct Process {
    name: String,
    page_table: RootPageTableHolder,
    allocated_pages: Vec<PinnedHeapPages>,
    free_mmap_address: usize,
    fd_table: FdTable,
    threads: BTreeSet<u64>,
    main_tid: Tid,
    parent_tid: Tid,
    brk: Brk,
}

/// Whether `m` is the anonymous mapping of `length` bytes at `addr` with
/// `mode`.
pub open spec fn is_mmap_region(m: UserMapping, addr: usize, length: int, mode: XWRMode) -> bool {
    &&& m.virtual_start == addr
    &&& m.size == length
    &&& m.mode == mode
    &&& m.kind == MappingKind::Mmap
}

/// From `before` to `after`, fresh zeroed pages of `length` bytes were
/// added and mapped at `addr` with `mode`, and nothing else changed in the
/// mappings and pages.
pub open spec fn mmap_added(before: Process, after: Process, addr: usize, length: int, mode: XWRMode) -> bool {
    &&& after.mappings().len() == before.mappings().len() + 1
    &&& after.mappings().drop_last() == before.mappings()
    &&& is_mmap_region(after.mappings().last(), addr, length, mode)
    &&& after.pages().len() == before.pages().len() + 1
    &&& after.pages().drop_last() == before.pages()
    &&& after.pages().last().bytes() == zeroed(length)
    &&& after.mappings().last().physical_start == after.pages().last().address()
    &&& after.pages().last().address() % PAGE_SIZE == 0
}

/// The `count` bytes of fresh zeroed pages.
pub open spec fn zeroed(count: int) -> Seq<u8> {
    Seq::new(count as nat, |i: int| 0u8)
}

impl Process {
    /// The name of the program.
    pub closed spec fn name_spec(&self) -> Seq<char> {
        self.name@
    }

    /// The user regions mapped so far.
    pub closed spec fn mappings(&self) -> Seq<UserMapping> {
        self.page_table.mappings()
    }

    /// The page tables.
    pub closed spec fn page_table_spec(&self) -> RootPageTableHolder {
        self.page_table
    }

    /// The blocks of pages the process owns, oldest first.
    pub closed spec fn pages(&self) -> Seq<PinnedHeapPages> {
        self.allocated_pages@
    }

    /// The next address for anonymous memory.
    pub closed spec fn free_mmap(&self) -> usize {
        self.free_mmap_address
    }

    /// The open files.
    pub closed spec fn fds(&self) -> FdTable {
        self.fd_table
    }

    /// The ids of the threads of the process.
    pub closed spec fn thread_ids(&self) -> Set<u64> {
        self.threads@
    }

    /// The id of the main thread.
    pub closed spec fn main_tid_spec(&self) -> Tid {
        self.main_tid
    }

    /// The id of the parent thread.
    pub closed spec fn parent_tid_spec(&self) -> Tid {
        self.parent_tid
    }

    /// The break area.
    pub closed spec fn brk_spec(&self) -> Brk {
        self.brk
    }

    /// A process with no threads yet, the standard files open, and anonymous
    /// memory starting at `FREE_MMAP_START_ADDRESS`.
    pub fn new(
        name: String,
        page_table: RootPageTableHolder,
        allocated_pages: Vec<PinnedHeapPages>,
        brk: Brk,
        main_thread: Tid,
        parent_tid: Tid,
    ) -> (r: Self)
        ensures
            r.name_spec() == name@,
            r.page_table_spec() == page_table,
            r.pages() == allocated_pages@,
            r.free_mmap() == FREE_MMAP_START_ADDRESS as usize,
            r.fds()@ == standard_table(),
            r.thread_ids() == Set::<u64>::empty(),
            r.main_tid_spec() == main_thread,
            r.parent_tid_spec() == parent_tid,
            r.brk_spec() == brk,
    {
        Process {
            name,
            page_table,
            allocated_pages,
            free_mmap_address: FREE_MMAP_START_ADDRESS as usize,
            fd_table: FdTable::new(),
            threads: BTreeSet::new(),
            main_tid: main_thread,
            parent_tid,
            brk,
        }
    }

    /// Moves the break (see `Brk::brk`) and returns it.
    pub fn brk(&mut self, brk: usize) -> (r: usize)
        ensures
            final(self).brk_spec().start() == old(self).brk_spec().start(),
            final(self).brk_spec().end() == old(self).brk_spec().end(),
            old(self).brk_spec().start() <= brk < old(self).brk_spec().end() ==> final(self).brk_spec().current() == brk,
            !(old(self).brk_spec().start() <= brk < old(self).brk_spec().end()) ==> final(self).brk_spec().current() == old(self).brk_spec().current(),
            r == final(self).brk_spec().current(),
            final(self).mappings() == old(self).mappings(),
            final(self).pages() == old(self).pages(),
            final(self).thread_ids() == old(self).thread_ids(),
    {
        self.brk.brk(VirtAddr::new(brk)).as_usize()
    }

    /// Records thread `tid` as one of the process's; a thread id is added
    /// once.
    pub fn add_thread(&mut self, tid: Tid)
        requires
            !old(self).thread_ids().contains(tid.0),
        ensures
            final(self).thread_ids() == old(self).thread_ids().insert(tid.0),
            final(self).name_spec() == old(self).name_spec(),
            final(self).page_table_spec() == old(self).page_table_spec(),
            final(self).pages() == old(self).pages(),
            final(self).free_mmap() == old(self).free_mmap(),
            final(self).fds() == old(self).fds(),
            final(self).main_tid_spec() == old(self).main_tid_spec(),
            final(self).parent_tid_spec() == old(self).parent_tid_spec(),
            final(self).brk_spec() == old(self).brk_spec(),
    {
        self.threads.insert(tid.0);
    }

    /// The number of threads of the process.
    pub fn threads_len(&self) -> (r: usize)
        ensures
            r == self.thread_ids().len(),
    {
        self.threads.len()
    }

    /// Maps `number_of_pages` fresh zeroed pages at `addr` with `permission`
    /// and returns `addr`; when part of that range is mapped already, nothing
    /// changes and the null pointer comes back.
    pub fn mmap_pages_with_address(&mut self, number_of_pages: usize, addr: usize, permission: XWRMode) -> (r: MutPtr)
        requires
            number_of_pages > 0,
            number_of_pages * PAGE_SIZE + addr <= usize::MAX,
            (number_of_pages + 1) * PAGE_SIZE <= usize::MAX,
        ensures
            ({
                let length = number_of_pages * PAGE_SIZE;
                let taken = exists|i: int|
                    0 <= i < old(self).mappings().len() && old(self).mappings()[i].virtual_start
                        < addr + length && addr < old(self).mappings()[i].virtual_start + old(self).mappings()[i].size;
                if taken {
                    &&& r.0 == 0
                    &&& final(self).mappings() == old(self).mappings()
                    &&& final(self).pages() == old(self).pages()
                } else {
                    &&& r.0 == addr
                    &&& mmap_added(*old(self), *final(self), addr, length, permission)
                }
            }),
            final(self).free_mmap() == old(self).free_mmap(),
            final(self).thread_ids() == old(self).thread_ids(),
            final(self).fds() == old(self).fds(),
    {
        let length = number_of_pages * PAGE_SIZE;
        if self.page_table.is_mapped(addr, addr + length) {
            return MutPtr(0);
        }
        let pages = PinnedHeapPages::new(number_of_pages);
        self.page_table.map_userspace(addr, pages.addr(), length, permission, MappingKind::Mmap);
        self.allocated_pages.push(pages);
        proof {
            assert(self.page_table.mappings().drop_last() =~= old(self).page_table.mappings());
            assert(self.allocated_pages@.drop_last() =~= old(self).allocated_pages@);
        }
        MutPtr(addr)
    }

    /// Maps `number_of_pages` fresh zeroed pages at the next free address
    /// for anonymous memory with `permission`, moves that address past them,
    /// and returns where they were mapped.
    pub fn mmap_pages(&mut self, number_of_pages: usize, permission: XWRMode) -> (r: MutPtr)
        requires
            number_of_pages > 0,
            number_of_pages * PAGE_SIZE + old(self).free_mmap() <= usize::MAX,
            (number_of_pages + 1) * PAGE_SIZE <= usize::MAX,
        ensures
            r.0 == old(self).free_mmap(),
            final(self).free_mmap() == old(self).free_mmap() + number_of_pages * PAGE_SIZE,
            mmap_added(*old(self), *final(self), old(self).free_mmap(), number_of_pages * PAGE_SIZE, permission),
            final(self).thread_ids() == old(self).thread_ids(),
            final(self).fds() == old(self).fds(),
    {
        let pages = PinnedHeapPages::new(number_of_pages);
        let length = PAGE_SIZE * number_of_pages;
        self.page_table.map_userspace(
            self.free_mmap_address,
            pages.addr(),
            length,
            permission,
            MappingKind::Mmap,
        );
        self.allocated_pages.push(pages);
        proof {
            assert(self.page_table.mappings().drop_last() =~= old(self).page_table.mappings());
            assert(self.allocated_pages@.drop_last() =~= old(self).allocated_pages@);
        }
        let ptr = MutPtr(self.free_mmap_address);
        self.free_mmap_address = self.free_mmap_address + length;
        ptr
    }

    /// The page tables.
    pub fn get_page_table(&self) -> (r: &RootPageTableHolder)
        ensures
            *r == self.page_table_spec(),
    {
        &self.page_table
    }

    /// The name of the program.
    pub fn get_name(&self) -> (r: &str)
        ensures
            r@ == self.name_spec(),
    {
        self.name.as_str()
    }

    /// The id of the main thread.
    pub fn main_tid(&self) -> (r: Tid)
        ensures
            r == self.main_tid_spec(),
    {
        self.main_tid
    }

    /// The id of the parent thread.
    pub fn parent_tid(&self) -> (r: Tid)
        ensures
            r == self.parent_tid_spec(),
    {
        self.parent_tid
    }

    /// Sets the parent thread.
    pub fn set_parent_tid(&mut self, parent_tid: Tid)
        ensures
            final(self).parent_tid_spec() == parent_tid,
            final(self).main_tid_spec() == old(self).main_tid_spec(),
            final(self).thread_ids() == old(self).thread_ids(),
            final(self).mappings() == old(self).mappings(),
            final(self).pages() == old(self).pages(),
            final(self).fds() == old(self).fds(),
    {
        self.parent_tid = parent_tid;
    }

    /// The open files.
    pub fn fd_table(&self) -> (r: &FdTable)
        ensures
            *r == self.fds(),
    {
        &self.fd_table
    }
    /// The page tables, to be changed in place.
    pub fn get_page_table_mut(&mut self) -> (r: &mut RootPageTableHolder)
        ensures
            *r == old(self).page_table_spec(),
            final(self).page_table_spec() == *final(r),
            final(self).pages() == old(self).pages(),
            final(self).free_mmap() == old(self).free_mmap(),
            final(self).fds() == old(self).fds(),
            final(self).thread_ids() == old(self).thread_ids(),
    {
        &mut self.page_table
    }

    /// The open files, to be changed in place.
    pub fn fd_table_mut(&mut self) -> (r: &mut FdTable)
        ensures
            *r == old(self).fds(),
            final(self).fds() == *final(r),
            final(self).mappings() == old(self).mappings(),
            final(self).pages() == old(self).pages(),
            final(self).free_mmap() == old(self).free_mmap(),
            final(self).thread_ids() == old(self).thread_ids(),
    {
        &mut self.fd_table
    }
}

/// `p` is a fresh process named `name` whose only thread is `tid`, over the
/// given address space, pages and break.
pub open spec fn fresh_process(
    p: Process,
    name: Seq<char>,
    tid: Tid,
    page_table: RootPageTableHolder,
    pages: Seq<PinnedHeapPages>,
    brk: Brk,
    parent_tid: Tid,
) -> bool {
    &&& p.name_spec() == name
    &&& p.page_table_spec() == page_table
    &&& p.pages() == pages
    &&& p.free_mmap() == FREE_MMAP_START_ADDRESS as usize
    &&& p.fds()@ == standard_table()
    &&& p.thread_ids() == set![tid.0]
    &&& p.main_tid_spec() == tid
    &&& p.parent_tid_spec() == parent_tid
    &&& p.brk_spec() == brk
}

/// `t` is a fresh runnable thread `tid` of the process named `name`,
/// starting at `pc`.
pub open spec fn fresh_thread<T>(t: Thread<T>, name: Seq<char>, tid: Tid, pc: usize, in_kernel_mode: bool) -> bool {
    &&& t.wf()
    &&& t.tid_spec() == tid
    &&& t.name_spec() == name
    &&& t.pc() == pc
    &&& t.sched() == (SchedState { state: ThreadState::Runnable, wakeup_pending: false })
    &&& t.kernel_mode() == in_kernel_mode
    &&& t.task() is None
}

/// A process and its main thread `tid`, which starts at `program_counter`.
pub fn new_process<T>(
    name: String,
    tid: Tid,
    page_table: RootPageTableHolder,
    program_counter: usize,
    allocated_pages: Vec<PinnedHeapPages>,
    in_kernel_mode: bool,
    brk: Brk,
    parent_tid: Tid,
) -> (r: (Process, Thread<T>))
    ensures
        fresh_process(
            r.0,
            name@,
            tid,
            page_table,
            allocated_pages@,
            brk,
            parent_tid,
        ),
        fresh_thread(r.1, name@, tid, program_counter, in_kernel_mode),
{
    let thread_name = name.clone();
    let mut process = Process::new(name, page_table, allocated_pages, brk, tid, parent_tid);
    let main_thread: Thread<T> = Thread::new(tid, thread_name, program_counter, in_kernel_mode);
    process.add_thread(tid);
    assert(process.thread_ids() =~= set![tid.0]);
    (process, main_thread)
}

/// The powersave process: a kernel-mode thread with id zero running the
/// idle loop at `powersave_address`, with no user memory.
pub fn create_powersave_thread<T>(powersave_address: usize) -> (r: (Process, Thread<T>))
    ensures
        fresh_process(
            r.0,
            "powersave"@,
            Tid(POWERSAVE_TID),
            r.0.page_table_spec(),
            Seq::empty(),
            r.0.brk_spec(),
            Tid(POWERSAVE_TID),
        ),
        r.0.mappings() == Seq::<UserMapping>::empty(),
        r.0.brk_spec().start() == 0 && r.0.brk_spec().current() == 0 && r.0.brk_spec().end() == 1,
        fresh_thread(r.1, "powersave"@, Tid(POWERSAVE_TID), powersave_address, true),
{
    let allocated_pages: Vec<PinnedHeapPages> = Vec::new();
    let r = new_process(
        "powersave".to_owned(),
        Tid(POWERSAVE_TID),
        RootPageTableHolder::new(),
        powersave_address,
        allocated_pages,
        true,
        Brk::empty(),
        Tid(POWERSAVE_TID),
    );
    assert(allocated_pages@ =~= Seq::<PinnedHeapPages>::empty());
    r
}

/// Loads the program with headers `program_headers` and entry point
/// `entry_point` as a new process named `name` with arguments `args`, child
/// of `parent_tid`; its main thread takes the next thread id and starts at
/// the entry point, in user mode.  Also returns where the arguments start:
/// the thread's first argument register and stack pointer.  Fails, taking no
/// thread id, when the arguments do not fit on the stack.
pub fn from_elf<T>(
    program_headers: &Vec<ProgramHeader>,
    entry_point: u64,
    name: &str,
    args: &[&str],
    parent_tid: Tid,
    tids: &mut TidCounter,
) -> (r: Result<(Process, Thread<T>, usize), LoaderError>)
    requires
        arguments_fit(name.spec_bytes(), arg_bytes(args@)),
        headers_loadable(program_headers@),
        entry_point <= usize::MAX,
        old(tids).peek() < u64::MAX,
    ensures
        match r {
            Err(e) => {
                &&& e == LoaderError::StackToSmall
                &&& arguments_length(name.spec_bytes(), arg_bytes(args@)) >= STACK_SIZE
                &&& final(tids).peek() == old(tids).peek()
            },
            Ok((p, t, args_start)) => {
                let tid = Tid(old(tids).peek());
                &&& final(tids).peek() == old(tids).peek() + 1
                &&& exists|elf: LoadedElf|
                    {
                        &&& loaded_from(elf, program_headers@, entry_point, name.spec_bytes(), arg_bytes(args@))
                        &&& args_start == elf.args_start
                        &&& fresh_process(
                            p,
                            name@,
                            tid,
                            elf.page_tables,
                            elf.allocated_pages@,
                            elf.brk,
                            parent_tid,
                        )
                    }
                &&& fresh_thread(t, name@, tid, entry_point as usize, false)
            },
        },
{
    let elf = match load_elf(program_headers, entry_point, name, args) {
        Ok(elf) => elf,
        Err(e) => {
            return Err(e);
        },
    };
    let ghost loaded = elf;
    let LoadedElf { entry_address, page_tables, allocated_pages, args_start, brk } = elf;
    let tid = tids.get_next_tid();
    let (process, thread) = new_process(
        name.to_owned(),
        tid,
        page_tables,
        entry_address,
        allocated_pages,
        false,
        brk,
        parent_tid,
    );
    assert(loaded_from(loaded, program_headers@, entry_point, name.spec_bytes(), arg_bytes(args@)));
    Ok((process, thread, args_start))
}

} // verus!
