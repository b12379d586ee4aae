//! The system tab: information about the engine, its events, and the disk
//! space its objects take.
use vstd::prelude::*;
use vstd::string::*;
use vstd::utf8::*;

use crate::text::{byte_prefix, first_bytes};

verus! {

broadcast use vstd::utf8::group_utf8_lib;

/// How many rows a data usage table shows unless asked to show all.
pub const MAX_ITEM_COUNT: usize = 10;

#[derive(Clone, Copy, PartialEq, Eq, Structural, Debug)]
pub enum CentralView {
    Home,
    Events,
    DataUsage,
}

impl Default for CentralView {
    fn default() -> (r: Self)
        ensures
            r == CentralView::Home,
    {
        CentralView::Home
    }
}

/// The state of the system tab. `I` is the information about the engine,
/// `U` its data usage and `E` one of its events.
#[derive(Debug)]
pub struct SystemTab<I, U, E> {
    pub system_info: Option<I>,
    pub data_usage: Option<U>,
    pub central_view: CentralView,
    pub display_all_containers: bool,
    pub display_all_images: bool,
    pub display_all_cache: bool,
    pub events: Vec<E>,
}

impl<I, U, E> SystemTab<I, U, E> {
    pub fn new() -> (r: Self)
        ensures
            r.system_info is None,
            r.data_usage is None,
            r.central_view == CentralView::Home,
            !r.display_all_containers,
            !r.display_all_images,
            !r.display_all_cache,
            r.events@.len() == 0,
    {
        SystemTab {
            system_info: None,
            data_usage: None,
            central_view: CentralView::default(),
            display_all_containers: false,
            display_all_images: false,
            display_all_cache: false,
            events: Vec::new(),
        }
    }
}

/// How many of `count` rows a table shows: all where asked to, else at most
/// `MAX_ITEM_COUNT`.
pub fn shown_rows(count: usize, display_all: bool) -> (r: usize)
    ensures
        r == (if display_all || count <= MAX_ITEM_COUNT {
            count
        } else {
            MAX_ITEM_COUNT
        }),
{
    if display_all || count <= MAX_ITEM_COUNT {
        count
    } else {
        MAX_ITEM_COUNT
    }
}

/// Whether a table says that there is "More to load...": it does not show
/// all rows and there are more than `MAX_ITEM_COUNT`.
pub fn more_to_load(count: usize, display_all: bool) -> (r: bool)
    ensures
        r == (!display_all && count > MAX_ITEM_COUNT),
{
    !display_all && count > MAX_ITEM_COUNT
}

/// A command as the data usage table shows it: its first 32 bytes where it
/// is longer.
pub fn short_command(command: &str) -> (r: &str)
    requires
        encode_utf8(command@).len() > 32 ==> is_char_boundary(encode_utf8(command@), 32),
    ensures
        r@ == (if encode_utf8(command@).len() > 32 {
            byte_prefix(command@, 32)
        } else {
            command@
        }),
{
    if command.as_bytes().len() > 32 {
        first_bytes(command, 32)
    } else {
        command
    }
}

/// The size of a container's root file system or of its writable layer, as
/// the totals count it: 0 where it is unknown, and taken as unsigned.
pub open spec fn size_as_unsigned(v: Option<i64>) -> nat {
    match v {
        Some(x) => (x as u64) as nat,
        None => 0,
    }
}

/// The total of the first sizes of `s`.
pub open spec fn total_first(s: Seq<(Option<i64>, Option<i64>)>) -> nat
    decreases s.len(),
{
    if s.len() == 0 {
        0
    } else {
        total_first(s.drop_last()) + size_as_unsigned(s.last().0)
    }
}

/// The total of the second sizes of `s`.
pub open spec fn total_second(s: Seq<(Option<i64>, Option<i64>)>) -> nat
    decreases s.len(),
{
    if s.len() == 0 {
        0
    } else {
        total_second(s.drop_last()) + size_as_unsigned(s.last().1)
    }
}

proof fn lemma_totals_monotone(s: Seq<(Option<i64>, Option<i64>)>, k: int)
    requires
        0 <= k <= s.len(),
    ensures
        total_first(s.take(k)) <= total_first(s),
        total_second(s.take(k)) <= total_second(s),
    decreases s.len() - k,
{
    if k < s.len() {
        lemma_totals_monotone(s, k + 1);
        assert(s.take(k + 1).drop_last() =~= s.take(k));
    } else {
        assert(s.take(k) =~= s);
    }
}

/// The number of containers and their total root file system and writable
/// layer sizes, from the (root file system, writable layer) sizes of each
/// container. The totals must fit in a `u64`.
pub fn container_size_totals(sizes: &Vec<(Option<i64>, Option<i64>)>) -> (r: (usize, u64, u64))
    requires
        total_first(sizes@) <= u64::MAX,
        total_second(sizes@) <= u64::MAX,
    ensures
        r.0 == sizes@.len(),
        r.1 == total_first(sizes@),
        r.2 == total_second(sizes@),
{
    let mut count: usize = 0;
    let mut root: u64 = 0;
    let mut rw: u64 = 0;
    while count < sizes.len()
        invariant
            count <= sizes@.len(),
            root == total_first(sizes@.take(count as int)),
            rw == total_second(sizes@.take(count as int)),
            total_first(sizes@) <= u64::MAX,
            total_second(sizes@) <= u64::MAX,
        decreases sizes@.len() - count,
    {
        let (a, b) = sizes[count];
        proof {
            assert(sizes@.take(count as int + 1).drop_last() =~= sizes@.take(count as int));
            lemma_totals_monotone(sizes@, count as int + 1);
        }
        let x: u64 = match a {
            Some(v) => v as u64,
            None => 0,
        };
        let y: u64 = match b {
            Some(v) => v as u64,
            None => 0,
        };
        root = root + x;
        rw = rw + y;
        count = count + 1;
    }
    assert(sizes@.take(count as int) =~= sizes@);
    (count, root, rw)
}

/// The sum of `v`.
pub open spec fn sum_of(v: Seq<int>) -> int
    decreases v.len(),
{
    if v.len() == 0 {
        0
    } else {
        sum_of(v.drop_last()) + v.last()
    }
}

/// Every running sum of `v`, from the left, fits in an `i64`, as the sums
/// of the image sizes must (an overflow would stop the GUI).
pub open spec fn running_sums_fit(v: Seq<int>) -> bool {
    forall|k: int| 0 <= k <= v.len() ==> i64::MIN <= #[trigger] sum_of(v.take(k)) <= i64::MAX
}

/// One column of the image sizes, as integers.
pub open spec fn column(s: Seq<(i64, i64, i64)>, c: int) -> Seq<int> {
    s.map_values(
        |x: (i64, i64, i64)|
            if c == 0 {
                x.0 as int
            } else if c == 1 {
                x.1 as int
            } else {
                x.2 as int
            },
    )
}

/// The number of images and the totals of their sizes, shared sizes and
/// virtual sizes, from the (size, shared size, virtual size) of each image.
pub fn image_size_totals(sizes: &Vec<(i64, i64, i64)>) -> (r: (usize, i64, i64, i64))
    requires
        running_sums_fit(column(sizes@, 0)),
        running_sums_fit(column(sizes@, 1)),
        running_sums_fit(column(sizes@, 2)),
    ensures
        r.0 == sizes@.len(),
        r.1 == sum_of(column(sizes@, 0)),
        r.2 == sum_of(column(sizes@, 1)),
        r.3 == sum_of(column(sizes@, 2)),
{
    let mut count: usize = 0;
    let mut total: i64 = 0;
    let mut shared: i64 = 0;
    let mut virt: i64 = 0;
    while count < sizes.len()
        invariant
            count <= sizes@.len(),
            running_sums_fit(column(sizes@, 0)),
            running_sums_fit(column(sizes@, 1)),
            running_sums_fit(column(sizes@, 2)),
            total == sum_of(column(sizes@, 0).take(count as int)),
            shared == sum_of(column(sizes@, 1).take(count as int)),
            virt == sum_of(column(sizes@, 2).take(count as int)),
        decreases sizes@.len() - count,
    {
        let (a, b, c) = sizes[count];
        proof {
            let k = count as int;
            assert(column(sizes@, 0).take(k + 1).drop_last() =~= column(sizes@, 0).take(k));
            assert(column(sizes@, 1).take(k + 1).drop_last() =~= column(sizes@, 1).take(k));
            assert(column(sizes@, 2).take(k + 1).drop_last() =~= column(sizes@, 2).take(k));
            assert(i64::MIN <= sum_of(column(sizes@, 0).take(k + 1)) <= i64::MAX);
            assert(i64::MIN <= sum_of(column(sizes@, 1).take(k + 1)) <= i64::MAX);
            assert(i64::MIN <= sum_of(column(sizes@, 2).take(k + 1)) <= i64::MAX);
        }
        total = total + a;
        shared = shared + b;
        virt = virt + c;
        count = count + 1;
    }
    proof {
        assert(column(sizes@, 0).take(count as int) =~= column(sizes@, 0));
        assert(column(sizes@, 1).take(count as int) =~= column(sizes@, 1));
        assert(column(sizes@, 2).take(count as int) =~= column(sizes@, 2));
    }
    (count, total, shared, virt)
}


/// Law: the size totals of the containers add up over the containers, and
/// one container counts each of its known sizes (taken as unsigned) and 0 for
/// an unknown one.
pub proof fn lemma_container_totals_add(
    a: Seq<(Option<i64>, Option<i64>)>,
    b: Seq<(Option<i64>, Option<i64>)>,
    root: i64,
    rw: i64,
)
    ensures
        total_first(a + b) == total_first(a) + total_first(b),
        total_second(a + b) == total_second(a) + total_second(b),
        total_first(seq![(Some(root), None::<i64>)]) == (root as u64) as nat,
        total_second(seq![(Some(root), None::<i64>)]) == 0,
        total_second(seq![(None::<i64>, Some(rw))]) == (rw as u64) as nat,
    decreases b.len(),
{
    if b.len() > 0 {
        lemma_container_totals_add(a, b.drop_last(), root, rw);
        assert((a + b).drop_last() =~= a + b.drop_last());
        assert((a + b).last() == b.last());
    } else {
        assert(a + b =~= a);
    }
    let x = seq![(Some(root), None::<i64>)];
    let y = seq![(None::<i64>, Some(rw))];
    assert(x.drop_last() =~= Seq::<(Option<i64>, Option<i64>)>::empty());
    assert(y.drop_last() =~= Seq::<(Option<i64>, Option<i64>)>::empty());
    assert(total_first(x.drop_last()) == 0 && total_second(x.drop_last()) == 0);
    assert(total_second(y.drop_last()) == 0);
}

/// Law: the sum of a list of numbers adds up over the list, and is the
/// number itself for one number.
pub proof fn lemma_sum_of_adds(a: Seq<int>, b: Seq<int>, x: int)
    ensures
        sum_of(a + b) == sum_of(a) + sum_of(b),
        sum_of(seq![x]) == x,
    decreases b.len(),
{
    if b.len() > 0 {
        lemma_sum_of_adds(a, b.drop_last(), x);
        assert((a + b).drop_last() =~= a + b.drop_last());
        assert((a + b).last() == b.last());
    } else {
        assert(a + b =~= a);
    }
    assert(seq![x].drop_last() =~= Seq::<int>::empty());
    assert(sum_of(seq![x].drop_last()) == 0);
}

/// Law: a column of the image sizes holds, for each image, its size, its
/// shared size or its virtual size, in the order of the images.
pub proof fn lemma_columns(s: Seq<(i64, i64, i64)>, i: int)
    requires
        0 <= i < s.len(),
    ensures
        column(s, 0)[i] == s[i].0 as int,
        column(s, 1)[i] == s[i].1 as int,
        column(s, 2)[i] == s[i].2 as int,
        column(s, 0).len() == s.len(),
{
}

} // verus!
