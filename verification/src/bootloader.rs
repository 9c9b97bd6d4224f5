//! The swap bootloader: which flash operations a boot carries out before it
//! starts the application.
//!
//! The ACTIVE and DFU partitions have 56 pages each. A pending swap exchanges
//! them page by page through a scratch page. It is power-fail-safe: every copy
//! is recorded before the next one overwrites what the first was made from, so
//! a boot after a power loss goes on where the last one stopped. A new
//! application that never confirms its boot is replaced by the old one, which
//! the swap left in the DFU partition.

use vstd::prelude::*;
use crate::boot_state::{
    BOOT_OK, NO_PROGRESS, PAGE_COPIED, PAGE_SAVED, REVERT_PENDING, SWAP_COMPLETE, SWAP_PENDING,
};
use crate::wire::get_u32;

verus! {

/// STM32WLE5 flash page size (2 KB).
pub const PAGE_SIZE: u32 = 2048;

/// Base address of internal flash.
pub const FLASH_BASE: u32 = 0x0800_0000;

/// ACTIVE partition: pages 8-63 (112 KB, 56 pages).
pub const ACTIVE_BASE: u32 = 0x0800_4000;

/// Pages per partition.
pub const ACTIVE_PAGES: u32 = 56;

/// First page of the ACTIVE partition.
pub const ACTIVE_PAGE: u32 = 8;

/// DFU partition: pages 64-119.
pub const DFU_BASE: u32 = 0x0802_0000;

/// First page of the DFU partition.
pub const DFU_PAGE: u32 = 64;

/// The scratch page behind the DFU partition.
pub const SCRATCH_PAGE: u32 = 120;

/// The number of the page at an address.
pub open spec fn page_at(addr: u32) -> int {
    (addr - FLASH_BASE) / PAGE_SIZE as int
}

/// The control word that erases a page.
pub open spec fn erase_word(page: u32) -> int {
    0x1_0000 + 8 * page + 2
}

/// Absolute page number for an address.
pub fn page_of(addr: u32) -> (page: u32)
    requires
        addr >= FLASH_BASE,
    ensures
        page == page_at(addr),
{
    (addr - FLASH_BASE) / PAGE_SIZE
}

/// The flash controller's page erase: erase, start, and the page number from
/// bit 3 up.
pub fn erase_control(page: u32) -> (cr: u32)
    requires
        page < 256,
    ensures
        cr == erase_word(page),
{
    0x1_0000 + 8 * page + 2
}

/// Double word `i` of some bytes, low and high half.
pub open spec fn double_word(bytes: Seq<u8>, i: int) -> (u32, u32) {
    (crate::wire::u32_at(bytes, 8 * i), crate::wire::u32_at(bytes, 8 * i + 4))
}

/// The double words, low and high half, that program `bytes`.
pub fn program_words(bytes: &[u8]) -> (words: Vec<(u32, u32)>)
    requires
        bytes@.len() % 8 == 0,
    ensures
        words@.len() == bytes@.len() / 8,
        forall|i: int|
            0 <= i < words@.len() ==> #[trigger] words@[i] == (
                crate::wire::u32_at(bytes@, 8 * i),
                crate::wire::u32_at(bytes@, 8 * i + 4),
            ),
        forall|i: int|
            0 <= i < words@.len() ==> #[trigger] words@[i] == double_word(bytes@, i),
{
    let mut words: Vec<(u32, u32)> = Vec::new();
    let mut at: usize = 0;
    while at < bytes.len()
        invariant
            at % 8 == 0,
            at <= bytes@.len(),
            bytes@.len() % 8 == 0,
            words@.len() == at / 8,
            forall|i: int|
                0 <= i < words@.len() ==> #[trigger] words@[i] == (
                    crate::wire::u32_at(bytes@, 8 * i),
                    crate::wire::u32_at(bytes@, 8 * i + 4),
                ),
        decreases bytes@.len() - at,
    {
        words.push((get_u32(bytes, at), get_u32(bytes, at + 4)));
        at = at + 8;
    }
    words
}

/// A flash operation of the bootloader.
#[derive(Clone, Copy, Debug, PartialEq, Eq, Structural)]
pub enum FlashOp {
    /// Copy one page to another, erasing that one first.
    CopyPage { from: u32, to: u32 },
    /// Write a new state record.
    WriteState { state: u32, progress: u32 },
}

// -- What the operations do ---------------------------------------------------

/// The flash as the bootloader sees it: its pages and the state record.
#[verifier::ext_equal]
pub struct FlashView {
    pub pages: Map<int, Seq<u8>>,
    pub state: u32,
    pub progress: u32,
}

/// The flash after an operation.
pub open spec fn apply(f: FlashView, op: FlashOp) -> FlashView {
    match op {
        FlashOp::CopyPage { from, to } => FlashView {
            pages: f.pages.insert(to as int, f.pages[from as int]),
            ..f
        },
        FlashOp::WriteState { state, progress } => FlashView { state, progress, ..f },
    }
}

/// The flash where power goes in the midst of an operation: the page that a
/// copy was writing holds whatever got there, `torn`. A record counts as
/// written or not.
pub open spec fn torn_by(f: FlashView, op: FlashOp, torn: Seq<u8>) -> FlashView {
    match op {
        FlashOp::CopyPage { from, to } => FlashView { pages: f.pages.insert(to as int, torn), ..f },
        FlashOp::WriteState { state, progress } => f,
    }
}

/// The flash after a run of operations.
pub open spec fn run(f: FlashView, ops: Seq<FlashOp>) -> FlashView
    decreases ops.len(),
{
    if ops.len() == 0 {
        f
    } else {
        apply(run(f, ops.drop_last()), ops.last())
    }
}

/// The operations that exchange page `i` of the partitions, each copy
/// recorded before the next one.
pub open spec fn swap_page(i: int) -> Seq<FlashOp> {
    seq![
        FlashOp::CopyPage { from: (ACTIVE_PAGE + i) as u32, to: SCRATCH_PAGE },
        FlashOp::WriteState { state: PAGE_SAVED, progress: i as u32 },
        FlashOp::CopyPage { from: (DFU_PAGE + i) as u32, to: (ACTIVE_PAGE + i) as u32 },
        FlashOp::WriteState { state: PAGE_COPIED, progress: i as u32 },
        FlashOp::CopyPage { from: SCRATCH_PAGE, to: (DFU_PAGE + i) as u32 },
        FlashOp::WriteState { state: SWAP_PENDING, progress: (i + 1) as u32 },
    ]
}

/// The operations that exchange the partitions from page `from` up to but not
/// including page `to`.
pub open spec fn swap_ops(from: int, to: int) -> Seq<FlashOp>
    decreases to - from,
{
    if from >= to {
        Seq::empty()
    } else {
        swap_page(from) + swap_ops(from + 1, to)
    }
}

/// Whether a state is that of a swap under way.
pub open spec fn is_swapping(state: u32) -> bool {
    state == SWAP_PENDING || state == PAGE_SAVED || state == PAGE_COPIED
}

/// How many operations of the page at hand a swap has recorded.
pub open spec fn steps_done(state: u32) -> int {
    if state == PAGE_SAVED {
        2
    } else if state == PAGE_COPIED {
        4
    } else {
        0
    }
}

/// The operations that a swap still takes that has done `done` operations of
/// page `i` and all of the pages before.
pub open spec fn swap_rest(i: int, done: int) -> Seq<FlashOp> {
    if i >= ACTIVE_PAGES {
        Seq::empty()
    } else {
        swap_page(i).skip(done) + swap_ops(i + 1, ACTIVE_PAGES as int)
    }
}

/// The operations that copy page `i` of the DFU partition back.
pub open spec fn revert_page(i: int) -> Seq<FlashOp> {
    seq![
        FlashOp::CopyPage { from: (DFU_PAGE + i) as u32, to: (ACTIVE_PAGE + i) as u32 },
        FlashOp::WriteState { state: REVERT_PENDING, progress: (i + 1) as u32 },
    ]
}

/// The operations that copy the DFU partition back from page `from` up to but
/// not including page `to`.
pub open spec fn revert_ops(from: int, to: int) -> Seq<FlashOp>
    decreases to - from,
{
    if from >= to {
        Seq::empty()
    } else {
        revert_ops(from, to - 1) + revert_page(to - 1)
    }
}

/// The page that a recorded progress goes on from.
pub open spec fn start_page(progress: u32) -> int {
    if progress == NO_PROGRESS {
        0
    } else {
        progress as int
    }
}

/// The operations of a boot that finds this state record.
pub open spec fn boot_ops(state: u32, progress: u32) -> Seq<FlashOp> {
    let pages = ACTIVE_PAGES as int;
    if is_swapping(state) {
        swap_rest(start_page(progress), steps_done(state)) + seq![
            FlashOp::WriteState { state: SWAP_COMPLETE, progress: NO_PROGRESS },
        ]
    } else if state == REVERT_PENDING {
        revert_ops(start_page(progress), pages) + seq![
            FlashOp::WriteState { state: BOOT_OK, progress: NO_PROGRESS },
        ]
    } else if state == SWAP_COMPLETE {
        // The new firmware booted but never confirmed.
        revert_ops(0, pages) + seq![
            FlashOp::WriteState { state: BOOT_OK, progress: NO_PROGRESS },
        ]
    } else {
        Seq::empty()
    }
}

// -- The bootloader -----------------------------------------------------------

/// Append the operations that page `i` still takes after `done` of them.
fn push_swap_page(ops: &mut Vec<FlashOp>, i: u32, done: usize)
    requires
        i < ACTIVE_PAGES,
        done <= 6,
    ensures
        final(ops)@ == old(ops)@ + swap_page(i as int).skip(done as int),
{
    let page: [FlashOp; 6] = [
        FlashOp::CopyPage { from: ACTIVE_PAGE + i, to: SCRATCH_PAGE },
        FlashOp::WriteState { state: PAGE_SAVED, progress: i },
        FlashOp::CopyPage { from: DFU_PAGE + i, to: ACTIVE_PAGE + i },
        FlashOp::WriteState { state: PAGE_COPIED, progress: i },
        FlashOp::CopyPage { from: SCRATCH_PAGE, to: DFU_PAGE + i },
        FlashOp::WriteState { state: SWAP_PENDING, progress: i + 1 },
    ];
    assert(page@ =~= swap_page(i as int));
    let mut k: usize = done;
    assert(page@.subrange(done as int, done as int) =~= Seq::<FlashOp>::empty());
    assert(ops@ =~= old(ops)@ + page@.subrange(done as int, k as int));
    while k < 6
        invariant
            done <= k <= 6,
            ops@ == old(ops)@ + page@.subrange(done as int, k as int),
        decreases 6 - k,
    {
        ops.push(page[k]);
        assert(page@.subrange(done as int, k + 1) =~= page@.subrange(done as int, k as int).push(
            page@[k as int],
        ));
        k = k + 1;
        assert(ops@ =~= old(ops)@ + page@.subrange(done as int, k as int));
    }
    assert(page@.subrange(done as int, 6) =~= swap_page(i as int).skip(done as int));
}

/// Append the operations that exchange ACTIVE and DFU, from `start_page` on.
fn push_swap(ops: &mut Vec<FlashOp>, start_page: u32)
    ensures
        final(ops)@ == old(ops)@ + swap_ops(start_page as int, ACTIVE_PAGES as int),
{
    let ghost goal = ops@ + swap_ops(start_page as int, ACTIVE_PAGES as int);
    let mut i: u32 = start_page;
    while i < ACTIVE_PAGES
        invariant
            ops@ + swap_ops(i as int, ACTIVE_PAGES as int) == goal,
        decreases ACTIVE_PAGES - i,
    {
        let ghost before = ops@;
        push_swap_page(ops, i, 0);
        assert(swap_page(i as int).skip(0) =~= swap_page(i as int));
        assert(ops@ + swap_ops(i + 1, ACTIVE_PAGES as int) =~= before + swap_ops(
            i as int,
            ACTIVE_PAGES as int,
        ));
        i = i + 1;
    }
    assert(ops@ + swap_ops(i as int, ACTIVE_PAGES as int) =~= ops@);
}

/// Perform a power-fail-safe swap of ACTIVE and DFU, from `start_page` on.
///
/// For each page i:
///   1. Copy ACTIVE[i] to scratch, and record that
///   2. Copy DFU[i] to ACTIVE[i], and record that
///   3. Copy scratch to DFU[i]
///   4. Update progress to i+1
pub fn swap_partitions(start_page: u32) -> (ops: Vec<FlashOp>)
    ensures
        ops@ == swap_ops(start_page as int, ACTIVE_PAGES as int),
{
    let mut ops: Vec<FlashOp> = Vec::new();
    push_swap(&mut ops, start_page);
    assert(ops@ =~= swap_ops(start_page as int, ACTIVE_PAGES as int));
    ops
}

/// Go on with a swap that stopped at `page`, with what its state says of that
/// page done.
pub fn resume_swap(state: u32, page: u32) -> (ops: Vec<FlashOp>)
    ensures
        ops@ == swap_rest(page as int, steps_done(state)),
{
    let mut ops: Vec<FlashOp> = Vec::new();
    if page < ACTIVE_PAGES {
        let done: usize = if state == PAGE_SAVED {
            2
        } else if state == PAGE_COPIED {
            4
        } else {
            0
        };
        push_swap_page(&mut ops, page, done);
        push_swap(&mut ops, page + 1);
        assert(ops@ =~= swap_rest(page as int, steps_done(state)));
    }
    ops
}

/// Copy DFU (which contains the old firmware after a swap) back to ACTIVE,
/// from `start_page` on.
pub fn revert_partitions(start_page: u32) -> (ops: Vec<FlashOp>)
    ensures
        ops@ == revert_ops(start_page as int, ACTIVE_PAGES as int),
{
    let mut ops: Vec<FlashOp> = Vec::new();
    let mut i: u32 = start_page;
    while i < ACTIVE_PAGES
        invariant
            start_page <= i,
            start_page < ACTIVE_PAGES ==> i <= ACTIVE_PAGES,
            start_page >= ACTIVE_PAGES ==> i == start_page,
            ops@ == revert_ops(start_page as int, i as int),
        decreases ACTIVE_PAGES - i,
    {
        let ghost before = ops@;
        ops.push(FlashOp::CopyPage { from: DFU_PAGE + i, to: ACTIVE_PAGE + i });
        ops.push(FlashOp::WriteState { state: REVERT_PENDING, progress: i + 1 });
        assert(ops@ =~= before + revert_page(i as int));
        i = i + 1;
    }
    ops
}

/// What a boot does before it starts the application, given the state record.
pub fn boot(state: u32, progress: u32) -> (ops: Vec<FlashOp>)
    ensures
        ops@ == boot_ops(state, progress),
{
    let start: u32 = if progress == NO_PROGRESS {
        0
    } else {
        progress
    };
    if state == SWAP_PENDING || state == PAGE_SAVED || state == PAGE_COPIED {
        let mut ops: Vec<FlashOp> = resume_swap(state, start);
        let ghost before = ops@;
        ops.push(FlashOp::WriteState { state: SWAP_COMPLETE, progress: NO_PROGRESS });
        assert(ops@ =~= before + seq![
            FlashOp::WriteState { state: SWAP_COMPLETE, progress: NO_PROGRESS },
        ]);
        ops
    } else if state == REVERT_PENDING {
        let mut ops: Vec<FlashOp> = revert_partitions(start);
        let ghost before = ops@;
        ops.push(FlashOp::WriteState { state: BOOT_OK, progress: NO_PROGRESS });
        assert(ops@ =~= before + seq![
            FlashOp::WriteState { state: BOOT_OK, progress: NO_PROGRESS },
        ]);
        ops
    } else if state == SWAP_COMPLETE {
        // New firmware booted but never confirmed: revert.
        let mut ops: Vec<FlashOp> = revert_partitions(0);
        let ghost before = ops@;
        ops.push(FlashOp::WriteState { state: BOOT_OK, progress: NO_PROGRESS });
        assert(ops@ =~= before + seq![
            FlashOp::WriteState { state: BOOT_OK, progress: NO_PROGRESS },
        ]);
        ops
    } else {
        // BOOT_OK or erased: normal boot.
        Vec::new()
    }
}

// -- Laws ---------------------------------------------------------------------

/// The pages of both partitions and the scratch page.
pub open spec fn in_partitions(page: int) -> bool {
    ACTIVE_PAGE <= page <= SCRATCH_PAGE
}

/// `g` is `f` with the partitions exchanged from page `from` up to but not
/// including page `to`; nothing outside the partitions has changed.
pub open spec fn exchanged(f: FlashView, g: FlashView, from: int, to: int) -> bool {
    &&& forall|i: int|
        #![trigger g.pages[ACTIVE_PAGE + i]]
        0 <= i < ACTIVE_PAGES ==> g.pages[ACTIVE_PAGE + i] == if from <= i < to {
            f.pages[DFU_PAGE + i]
        } else {
            f.pages[ACTIVE_PAGE + i]
        }
    &&& forall|i: int|
        #![trigger g.pages[DFU_PAGE + i]]
        0 <= i < ACTIVE_PAGES ==> g.pages[DFU_PAGE + i] == if from <= i < to {
            f.pages[ACTIVE_PAGE + i]
        } else {
            f.pages[DFU_PAGE + i]
        }
    &&& forall|p: int| !in_partitions(p) ==> #[trigger] g.pages[p] == f.pages[p]
}

/// `g` is `f` with the DFU partition copied into the ACTIVE one from page
/// `from` up to but not including page `to`; nothing else has changed.
pub open spec fn reverted(f: FlashView, g: FlashView, from: int, to: int) -> bool {
    &&& forall|i: int|
        #![trigger g.pages[ACTIVE_PAGE + i]]
        0 <= i < ACTIVE_PAGES ==> g.pages[ACTIVE_PAGE + i] == if from <= i < to {
            f.pages[DFU_PAGE + i]
        } else {
            f.pages[ACTIVE_PAGE + i]
        }
    &&& forall|p: int|
        !(ACTIVE_PAGE <= p < ACTIVE_PAGE + ACTIVE_PAGES) ==> #[trigger] g.pages[p] == f.pages[p]
}

proof fn lemma_run_append(f: FlashView, a: Seq<FlashOp>, b: Seq<FlashOp>)
    ensures
        run(f, a + b) == run(run(f, a), b),
    decreases b.len(),
{
    if b.len() == 0 {
        assert(a + b =~= a);
    } else {
        lemma_run_append(f, a, b.drop_last());
        assert((a + b).drop_last() =~= a + b.drop_last());
    }
}

proof fn lemma_run_revert_page(f: FlashView, i: int)
    requires
        0 <= i < ACTIVE_PAGES,
    ensures
        ({
            let g = run(f, revert_page(i));
            &&& g.pages == f.pages.insert(ACTIVE_PAGE + i, f.pages[DFU_PAGE + i])
            &&& g.state == REVERT_PENDING
            &&& g.progress == i + 1
        }),
{
    let ops = revert_page(i);
    reveal_with_fuel(run, 3);
    assert(ops.drop_last() =~= seq![ops[0]]);
    assert(ops.drop_last().drop_last() =~= Seq::<FlashOp>::empty());
}

/// `g` is on the way from `f` to `f` exchanged: the pages before the one at
/// hand are, the pages behind it are not, and of that one everything stands
/// somewhere that the rest of the swap is made from.
pub open spec fn mid_swap(f: FlashView, g: FlashView) -> bool {
    let at = start_page(g.progress);
    &&& is_swapping(g.state)
    &&& 0 <= at <= ACTIVE_PAGES
    &&& g.state != SWAP_PENDING ==> at < ACTIVE_PAGES
    &&& forall|i: int|
        #![trigger g.pages[ACTIVE_PAGE + i]]
        0 <= i < ACTIVE_PAGES && i != at ==> g.pages[ACTIVE_PAGE + i] == if i < at {
            f.pages[DFU_PAGE + i]
        } else {
            f.pages[ACTIVE_PAGE + i]
        }
    &&& forall|i: int|
        #![trigger g.pages[DFU_PAGE + i]]
        0 <= i < ACTIVE_PAGES && i != at ==> g.pages[DFU_PAGE + i] == if i < at {
            f.pages[ACTIVE_PAGE + i]
        } else {
            f.pages[DFU_PAGE + i]
        }
    &&& at < ACTIVE_PAGES ==> if g.state == SWAP_PENDING {
        &&& g.pages[ACTIVE_PAGE + at] == f.pages[ACTIVE_PAGE + at]
        &&& g.pages[DFU_PAGE + at] == f.pages[DFU_PAGE + at]
    } else if g.state == PAGE_SAVED {
        &&& g.pages[SCRATCH_PAGE as int] == f.pages[ACTIVE_PAGE + at]
        &&& g.pages[DFU_PAGE + at] == f.pages[DFU_PAGE + at]
    } else {
        &&& g.pages[SCRATCH_PAGE as int] == f.pages[ACTIVE_PAGE + at]
        &&& g.pages[ACTIVE_PAGE + at] == f.pages[DFU_PAGE + at]
    }
    &&& forall|p: int| !in_partitions(p) ==> #[trigger] g.pages[p] == f.pages[p]
}

/// What the boot that finds `g` does.
pub open spec fn ops_of(g: FlashView) -> Seq<FlashOp> {
    boot_ops(g.state, g.progress)
}

/// The next copy and its record bring a swap to where the rest of the
/// operations is what a boot would do.
proof fn lemma_copy_and_record(f: FlashView, g: FlashView, torn: Seq<u8>)
    requires
        mid_swap(f, g),
        start_page(g.progress) < ACTIVE_PAGES,
    ensures
        ({
            let ops = ops_of(g);
            let copied = apply(g, ops[0]);
            let recorded = apply(copied, ops[1]);
            &&& ops.len() > 2
            &&& ops[0] is CopyPage
            &&& ops[1] is WriteState
            &&& mid_swap(f, torn_by(g, ops[0], torn))
            &&& mid_swap(f, copied)
            &&& mid_swap(f, recorded)
            &&& ops_of(recorded) == ops.skip(2)
        }),
{
    let at = start_page(g.progress);
    let done = steps_done(g.state);
    let ops = ops_of(g);
    let page = swap_page(at);
    let rest = swap_ops(at + 1, ACTIVE_PAGES as int);
    assert(ops[0] == page[done]);
    assert(ops[1] == page[done + 1]);
    let copied = apply(g, ops[0]);
    let recorded = apply(copied, ops[1]);
    assert(start_page(recorded.progress) == if done == 4 {
        at + 1
    } else {
        at
    });
    if done < 4 {
        assert(ops_of(recorded) =~= ops.skip(2));
    } else if at + 1 < ACTIVE_PAGES {
        assert(rest == swap_page(at + 1) + swap_ops(at + 2, ACTIVE_PAGES as int));
        assert(ops_of(recorded) =~= ops.skip(2));
    } else {
        assert(rest =~= Seq::<FlashOp>::empty());
        assert(ops_of(recorded) =~= ops.skip(2));
    }
}

proof fn lemma_run_two(g: FlashView, ops: Seq<FlashOp>, n: int)
    requires
        2 <= n <= ops.len(),
    ensures
        run(g, ops.take(n)) == run(
            apply(apply(g, ops[0]), ops[1]),
            ops.skip(2).take(n - 2),
        ),
{
    let first = ops.take(2);
    assert(ops.take(n) =~= first + ops.skip(2).take(n - 2));
    lemma_run_append(g, first, ops.skip(2).take(n - 2));
    reveal_with_fuel(run, 3);
    assert(first.drop_last() =~= seq![ops[0]]);
    assert(first.drop_last().drop_last() =~= Seq::<FlashOp>::empty());
}

/// A swap keeps to its way whatever its operations are cut short by, and ends
/// with the partitions exchanged.
proof fn lemma_swap_keeps_its_way(f: FlashView, g: FlashView, n: int, torn: Seq<u8>)
    requires
        mid_swap(f, g),
        0 <= n <= ops_of(g).len(),
    ensures
        ({
            let ops = ops_of(g);
            let cut = run(g, ops.take(n));
            if n < ops.len() {
                mid_swap(f, cut) && mid_swap(f, torn_by(cut, ops[n], torn))
            } else {
                exchanged(f, cut, 0, ACTIVE_PAGES as int) && cut.state == SWAP_COMPLETE
            }
        }),
    decreases ops_of(g).len(),
{
    let ops = ops_of(g);
    reveal_with_fuel(run, 2);
    if start_page(g.progress) >= ACTIVE_PAGES {
        assert(ops.len() == 1);
        assert(ops.take(1).drop_last() =~= Seq::<FlashOp>::empty());
        assert(ops.take(0) =~= Seq::<FlashOp>::empty());
    } else {
        lemma_copy_and_record(f, g, torn);
        if n == 0 {
            assert(ops.take(0) =~= Seq::<FlashOp>::empty());
        } else if n == 1 {
            assert(ops.take(1).drop_last() =~= Seq::<FlashOp>::empty());
        } else {
            let recorded = apply(apply(g, ops[0]), ops[1]);
            lemma_run_two(g, ops, n);
            assert(n < ops.len() ==> ops.skip(2)[n - 2] == ops[n]);
            lemma_swap_keeps_its_way(f, recorded, n - 2, torn);
        }
    }
}

proof fn lemma_run_swap_page(f: FlashView, i: int)
    requires
        0 <= i < ACTIVE_PAGES,
    ensures
        ({
            let g = run(f, swap_page(i));
            &&& g.pages == f.pages.insert(
                SCRATCH_PAGE as int,
                f.pages[ACTIVE_PAGE + i],
            ).insert(ACTIVE_PAGE + i, f.pages[DFU_PAGE + i]).insert(
                DFU_PAGE + i,
                f.pages[ACTIVE_PAGE + i],
            )
            &&& g.state == SWAP_PENDING
            &&& g.progress == i + 1
        }),
{
    let ops = swap_page(i);
    lemma_run_two(f, ops, 6);
    lemma_run_two(apply(apply(f, ops[0]), ops[1]), ops.skip(2), 4);
    lemma_run_two(
        apply(apply(apply(apply(f, ops[0]), ops[1]), ops[2]), ops[3]),
        ops.skip(2).skip(2),
        2,
    );
    assert(ops.take(6) =~= ops);
    assert(ops.skip(2).take(4) =~= ops.skip(2));
    assert(ops.skip(2).skip(2).take(2) =~= ops.skip(2).skip(2));
    assert(ops.skip(2).skip(2).skip(2).take(0) =~= Seq::<FlashOp>::empty());
}

/// Swapping pages `from` to `to` exchanges exactly those, and records that it
/// got to `to`.
pub proof fn law_swap_exchanges(f: FlashView, from: int, to: int)
    requires
        0 <= from <= to <= ACTIVE_PAGES,
    ensures
        exchanged(f, run(f, swap_ops(from, to)), from, to),
        from < to ==> {
            &&& run(f, swap_ops(from, to)).state == SWAP_PENDING
            &&& run(f, swap_ops(from, to)).progress == to
        },
    decreases to - from,
{
    if from < to {
        let g = run(f, swap_page(from));
        lemma_run_append(f, swap_page(from), swap_ops(from + 1, to));
        lemma_run_swap_page(f, from);
        law_swap_exchanges(g, from + 1, to);
        if from + 1 == to {
            assert(run(g, swap_ops(to, to)) == g);
        }
    }
}

/// A boot that finds a swap pending exchanges the partitions and nothing else.
pub proof fn law_pending_swap_is_carried_out(f: FlashView)
    requires
        f.state == SWAP_PENDING,
        f.progress == NO_PROGRESS,
    ensures
        exchanged(f, run(f, ops_of(f)), 0, ACTIVE_PAGES as int),
        run(f, ops_of(f)).state == SWAP_COMPLETE,
{
    let ops = ops_of(f);
    lemma_swap_keeps_its_way(f, f, ops.len() as int, Seq::empty());
    assert(ops.take(ops.len() as int) =~= ops);
}

/// The swap is power-fail-safe: power lost after any number of its operations,
/// the boot that follows ends with the partitions exchanged, as if it had not
/// been lost. Lost after the last one, they are exchanged already.
pub proof fn law_swap_is_power_fail_safe(f: FlashView, n: int)
    requires
        f.state == SWAP_PENDING,
        f.progress == NO_PROGRESS,
        0 <= n <= boot_ops(SWAP_PENDING, NO_PROGRESS).len(),
    ensures
        ({
            let ops = boot_ops(SWAP_PENDING, NO_PROGRESS);
            let lost = run(f, ops.take(n));
            let resumed = run(lost, boot_ops(lost.state, lost.progress));
            &&& is_swapping(lost.state) <==> n < ops.len()
            &&& is_swapping(lost.state) ==> exchanged(f, resumed, 0, ACTIVE_PAGES as int)
                && resumed.state == SWAP_COMPLETE
            &&& !is_swapping(lost.state) ==> exchanged(f, lost, 0, ACTIVE_PAGES as int)
                && lost.state == SWAP_COMPLETE
        }),
{
    let ops = ops_of(f);
    lemma_swap_keeps_its_way(f, f, n, Seq::empty());
    let lost = run(f, ops.take(n));
    if n < ops.len() {
        let again = ops_of(lost);
        lemma_swap_keeps_its_way(f, lost, again.len() as int, Seq::empty());
        assert(again.take(again.len() as int) =~= again);
    }
}

/// Nor does it matter that a copy was under way: whatever the page that it was
/// writing holds, the boot that follows ends with the partitions exchanged.
pub proof fn law_torn_copy_is_made_good(f: FlashView, n: int, torn: Seq<u8>)
    requires
        f.state == SWAP_PENDING,
        f.progress == NO_PROGRESS,
        0 <= n < boot_ops(SWAP_PENDING, NO_PROGRESS).len(),
    ensures
        ({
            let ops = boot_ops(SWAP_PENDING, NO_PROGRESS);
            let lost = torn_by(run(f, ops.take(n)), ops[n], torn);
            let resumed = run(lost, boot_ops(lost.state, lost.progress));
            &&& exchanged(f, resumed, 0, ACTIVE_PAGES as int)
            &&& resumed.state == SWAP_COMPLETE
        }),
{
    let ops = ops_of(f);
    lemma_swap_keeps_its_way(f, f, n, torn);
    let lost = torn_by(run(f, ops.take(n)), ops[n], torn);
    let again = ops_of(lost);
    lemma_swap_keeps_its_way(f, lost, again.len() as int, Seq::empty());
    assert(again.take(again.len() as int) =~= again);
}

/// Where boots leave the flash that lose power one after the other, each after
/// so many of its operations.
pub open spec fn after_losses(f: FlashView, cuts: Seq<int>) -> FlashView
    decreases cuts.len(),
{
    if cuts.len() == 0 {
        f
    } else {
        let g = after_losses(f, cuts.drop_last());
        run(g, ops_of(g).take(cuts.last()))
    }
}

/// Power may go as often as it likes: however many boots lose it before the
/// swap is done, the first one that does not ends with the partitions
/// exchanged.
pub proof fn law_swap_survives_repeated_losses(f: FlashView, cuts: Seq<int>)
    requires
        f.state == SWAP_PENDING,
        f.progress == NO_PROGRESS,
        forall|k: int|
            0 <= k < cuts.len() ==> 0 <= #[trigger] cuts[k] < ops_of(
                after_losses(f, cuts.take(k)),
            ).len(),
    ensures
        ({
            let lost = after_losses(f, cuts);
            let resumed = run(lost, ops_of(lost));
            &&& is_swapping(lost.state)
            &&& exchanged(f, resumed, 0, ACTIVE_PAGES as int)
            &&& resumed.state == SWAP_COMPLETE
        }),
{
    lemma_losses_keep_the_way(f, cuts);
    let lost = after_losses(f, cuts);
    let again = ops_of(lost);
    lemma_swap_keeps_its_way(f, lost, again.len() as int, Seq::empty());
    assert(again.take(again.len() as int) =~= again);
}

proof fn lemma_losses_keep_the_way(f: FlashView, cuts: Seq<int>)
    requires
        f.state == SWAP_PENDING,
        f.progress == NO_PROGRESS,
        forall|k: int|
            0 <= k < cuts.len() ==> 0 <= #[trigger] cuts[k] < ops_of(
                after_losses(f, cuts.take(k)),
            ).len(),
    ensures
        mid_swap(f, after_losses(f, cuts)),
    decreases cuts.len(),
{
    if cuts.len() > 0 {
        let before = cuts.drop_last();
        assert forall|k: int| 0 <= k < before.len() implies 0 <= #[trigger] before[k] < ops_of(
            after_losses(f, before.take(k)),
        ).len() by {
            assert(before[k] == cuts[k]);
            assert(before.take(k) =~= cuts.take(k));
        }
        lemma_losses_keep_the_way(f, before);
        assert(cuts[cuts.len() - 1] == cuts.last());
        assert(cuts.take(cuts.len() - 1) =~= before);
        lemma_swap_keeps_its_way(f, after_losses(f, before), cuts.last(), Seq::empty());
    }
}

/// Copying pages `from` to `to` back touches no page but those of ACTIVE, and
/// records that it got to `to`.
pub proof fn law_revert_copies(f: FlashView, from: int, to: int)
    requires
        0 <= from <= to <= ACTIVE_PAGES,
    ensures
        reverted(f, run(f, revert_ops(from, to)), from, to),
        from < to ==> {
            &&& run(f, revert_ops(from, to)).state == REVERT_PENDING
            &&& run(f, revert_ops(from, to)).progress == to
        },
    decreases to - from,
{
    if from < to {
        law_revert_copies(f, from, to - 1);
        lemma_run_append(f, revert_ops(from, to - 1), revert_page(to - 1));
        let mid = run(f, revert_ops(from, to - 1));
        lemma_run_revert_page(mid, to - 1);
    }
}

/// A revert that lost power after any of its operations resumes and ends as
/// if it had not.
pub proof fn law_revert_resumes(f: FlashView, done: int, copied: bool)
    requires
        0 <= done <= ACTIVE_PAGES,
        copied ==> done < ACTIVE_PAGES,
        f.state == SWAP_COMPLETE,
    ensures
        ({
            let lost = run(
                f,
                revert_ops(0, done) + (if copied {
                    revert_page(done).take(1)
                } else {
                    Seq::empty()
                }),
            );
            let resumed = run(lost, boot_ops(lost.state, lost.progress));
            &&& reverted(f, resumed, 0, ACTIVE_PAGES as int)
            &&& resumed.state == BOOT_OK
        }),
{
    let pages = ACTIVE_PAGES as int;
    let extra = if copied {
        revert_page(done).take(1)
    } else {
        Seq::<FlashOp>::empty()
    };
    law_revert_copies(f, 0, done);
    lemma_run_append(f, revert_ops(0, done), extra);
    let at = run(f, revert_ops(0, done));
    let lost = run(at, extra);
    reveal_with_fuel(run, 2);
    if copied {
        assert(extra =~= seq![revert_page(done)[0]]);
        assert(extra.drop_last() =~= Seq::<FlashOp>::empty());
    }
    if done == 0 {
        assert(revert_ops(0, 0) =~= Seq::<FlashOp>::empty());
    }
    law_revert_copies(lost, done, pages);
    let tail = seq![FlashOp::WriteState { state: BOOT_OK, progress: NO_PROGRESS }];
    lemma_run_append(lost, revert_ops(done, pages), tail);
    assert(tail.drop_last() =~= Seq::<FlashOp>::empty());
    let back = run(lost, revert_ops(done, pages));
    assert(run(back, tail).pages == back.pages);
}

/// An update that is never confirmed is undone: the boot that finds a swap
/// pending installs the new firmware, the next boot puts the old one back,
/// and the boots after that leave it alone.
pub proof fn law_unconfirmed_update_is_undone(f: FlashView)
    requires
        f.state == SWAP_PENDING,
        f.progress == NO_PROGRESS,
    ensures
        ({
            let first = run(f, boot_ops(f.state, f.progress));
            let second = run(first, boot_ops(first.state, first.progress));
            &&& first.state == SWAP_COMPLETE
            &&& forall|i: int|
                #![trigger first.pages[ACTIVE_PAGE + i]]
                0 <= i < ACTIVE_PAGES ==> first.pages[ACTIVE_PAGE + i] == f.pages[DFU_PAGE + i]
            &&& second.state == BOOT_OK
            &&& forall|i: int|
                #![trigger second.pages[ACTIVE_PAGE + i]]
                0 <= i < ACTIVE_PAGES ==> second.pages[ACTIVE_PAGE + i] == f.pages[ACTIVE_PAGE + i]
            &&& boot_ops(second.state, second.progress) == Seq::<FlashOp>::empty()
        }),
{
    law_pending_swap_is_carried_out(f);
    let nothing = Seq::<FlashOp>::empty();
    let first = run(f, boot_ops(f.state, f.progress));
    law_revert_resumes(first, 0, false);
    assert(revert_ops(0, 0) + nothing =~= nothing);
    assert(run(first, nothing) == first);
    let second = run(first, boot_ops(first.state, first.progress));
    assert forall|i: int| 0 <= i < ACTIVE_PAGES implies #[trigger] second.pages[ACTIVE_PAGE + i]
        == f.pages[ACTIVE_PAGE + i] by {
        assert(first.pages[DFU_PAGE + i] == f.pages[ACTIVE_PAGE + i]);
    }
}

/// A confirmed firmware is booted as it is.
pub proof fn law_confirmed_boot_changes_nothing(f: FlashView)
    requires
        f.state == BOOT_OK,
    ensures
        run(f, boot_ops(f.state, f.progress)) == f,
{
}

/// A boot that finds none of its own states - erased flash among them - leaves
/// the flash alone.
pub proof fn law_unknown_state_changes_nothing(f: FlashView)
    requires
        f.state != SWAP_PENDING,
        f.state != PAGE_SAVED,
        f.state != PAGE_COPIED,
        f.state != SWAP_COMPLETE,
        f.state != REVERT_PENDING,
    ensures
        boot_ops(f.state, f.progress).len() == 0,
        run(f, boot_ops(f.state, f.progress)) == f,
{
}

/// An address lies in its page, and pages are 2048 bytes from the start of the
/// flash on; the word that erases one carries its number behind the three low
/// bits, with the erase and start bits set.
pub proof fn law_pages_are_numbered(addr: u32, page: u32)
    requires
        addr >= 0x0800_0000,
        page < 256,
    ensures
        0x0800_0000 + 2048 * page_at(addr) <= addr < 0x0800_0000 + 2048 * page_at(addr) + 2048,
        erase_word(page) / 8 % 256 == page,
        erase_word(page) % 8 == 2,
        erase_word(page) / 0x1_0000 == 1,
        page_at(ACTIVE_BASE) == 8,
        page_at(DFU_BASE) == 64,
{
}

/// A double word holds its eight bytes, four in each half, low byte first.
pub proof fn law_double_words_hold_the_bytes(bytes: Seq<u8>, at: int, i: int)
    requires
        0 <= i,
        at == 8 * i,
        at + 8 <= bytes.len(),
    ensures
        ({
            let (lo, hi) = double_word(bytes, i);
            &&& lo == bytes[at] + 256 * bytes[at + 1] + 65536 * bytes[at + 2] + 16777216 * bytes[at
                + 3]
            &&& hi == bytes[at + 4] + 256 * bytes[at + 5] + 65536 * bytes[at + 6] + 16777216
                * bytes[at + 7]
        }),
{
}

} // verus!
