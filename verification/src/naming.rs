//! Names of sealed snapshots.
//!
//! A sealed snapshot is published as `<namespace>-<start>-<end>.snap`, the two
//! frame numbers in decimal. The namespace is used as it is given. A caller
//! that wants another scheme can build its own name from the sealed header.

use vstd::prelude::*;
use vstd::string::*;

verus! {

/// The character for one decimal digit.
pub open spec fn digit_char(d: int) -> char
    recommends
        0 <= d < 10,
{
    if d == 0 {
        '0'
    } else if d == 1 {
        '1'
    } else if d == 2 {
        '2'
    } else if d == 3 {
        '3'
    } else if d == 4 {
        '4'
    } else if d == 5 {
        '5'
    } else if d == 6 {
        '6'
    } else if d == 7 {
        '7'
    } else if d == 8 {
        '8'
    } else {
        '9'
    }
}

/// Whether `c` is one of the ten decimal digits.
pub open spec fn is_digit(c: char) -> bool {
    exists|d: int| 0 <= d < 10 && c == #[trigger] digit_char(d)
}

/// The decimal notation of `n`, without leading zeros.
pub open spec fn decimal(n: nat) -> Seq<char>
    decreases n,
{
    if n < 10 {
        seq![digit_char(n as int)]
    } else {
        decimal(n / 10).push(digit_char((n % 10) as int))
    }
}

/// The extension of a sealed snapshot's file name.
pub open spec fn snap_suffix() -> Seq<char> {
    seq!['.', 's', 'n', 'a', 'p']
}

/// The file name of the snapshot of `namespace` that covers the frames
/// `start_frame_no` to `end_frame_no`.
pub open spec fn snapshot_name_spec(
    namespace: Seq<char>,
    start_frame_no: u64,
    end_frame_no: u64,
) -> Seq<char> {
    namespace + seq!['-'] + decimal(start_frame_no as nat) + seq!['-'] + decimal(
        end_frame_no as nat,
    ) + snap_suffix()
}

/// A number's notation is not empty and holds digits only.
pub proof fn lemma_decimal_digits(n: nat)
    ensures
        decimal(n).len() >= 1,
        forall|i: int| 0 <= i < decimal(n).len() ==> is_digit(#[trigger] decimal(n)[i]),
    decreases n,
{
    if n < 10 {
        assert(decimal(n)[0] == digit_char(n as int));
    } else {
        lemma_decimal_digits(n / 10);
        let d = (n % 10) as int;
        assert forall|i: int| 0 <= i < decimal(n).len() implies is_digit(
            #[trigger] decimal(n)[i],
        ) by {
            if i == decimal(n).len() - 1 {
                assert(decimal(n)[i] == digit_char(d));
            } else {
                assert(decimal(n)[i] == decimal(n / 10)[i]);
            }
        }
    }
}

/// Different numbers are written differently.
pub proof fn lemma_decimal_injective(a: nat, b: nat)
    requires
        decimal(a) == decimal(b),
    ensures
        a == b,
    decreases a,
{
    lemma_decimal_digits(a / 10);
    lemma_decimal_digits(b / 10);
    if a < 10 && b < 10 {
        assert(decimal(a)[0] == digit_char(a as int));
        assert(decimal(b)[0] == digit_char(b as int));
    } else if a >= 10 && b >= 10 {
        let da = decimal(a / 10);
        let db = decimal(b / 10);
        assert(decimal(a).last() == digit_char((a % 10) as int));
        assert(decimal(b).last() == digit_char((b % 10) as int));
        assert(decimal(a).drop_last() =~= da);
        assert(decimal(b).drop_last() =~= db);
        lemma_decimal_injective(a / 10, b / 10);
    } else if a < 10 {
        assert(decimal(a).len() == 1);
        assert(decimal(b).len() == decimal(b / 10).len() + 1);
    } else {
        assert(decimal(b).len() == 1);
        assert(decimal(a).len() == decimal(a / 10).len() + 1);
    }
}

/// Where a dash and a run of digits end two equal texts, the runs are equal,
/// and so is what stands before the dashes.
proof fn lemma_split_at_last_dash(x1: Seq<char>, d1: Seq<char>, x2: Seq<char>, d2: Seq<char>)
    requires
        x1 + seq!['-'] + d1 == x2 + seq!['-'] + d2,
        forall|i: int| 0 <= i < d1.len() ==> is_digit(#[trigger] d1[i]),
        forall|i: int| 0 <= i < d2.len() ==> is_digit(#[trigger] d2[i]),
    ensures
        x1 == x2,
        d1 == d2,
{
    let t1 = x1 + seq!['-'] + d1;
    let t2 = x2 + seq!['-'] + d2;
    assert(!is_digit('-'));
    assert(t1.len() == x1.len() + 1 + d1.len());
    assert(t2.len() == x2.len() + 1 + d2.len());
    if d1.len() < d2.len() {
        let k = x1.len() as int;
        assert(t1[k] == '-');
        assert(t2[k] == d2[k - x2.len() - 1]);
        assert(false);
    }
    if d2.len() < d1.len() {
        let k = x2.len() as int;
        assert(t2[k] == '-');
        assert(t1[k] == d1[k - x1.len() - 1]);
        assert(false);
    }
    assert(x1.len() == x2.len());
    assert(x1 =~= t1.subrange(0, x1.len() as int));
    assert(x2 =~= t2.subrange(0, x2.len() as int));
    assert(d1 =~= t1.subrange(x1.len() as int + 1, t1.len() as int));
    assert(d2 =~= t2.subrange(x2.len() as int + 1, t2.len() as int));
}

/// A snapshot's name tells its namespace and its frame range: two snapshots
/// that differ in any of the three carry different names. In particular the
/// snapshots of two namespaces never share a name.
pub proof fn lemma_snapshot_name_injective(
    namespace1: Seq<char>,
    start1: u64,
    end1: u64,
    namespace2: Seq<char>,
    start2: u64,
    end2: u64,
)
    requires
        snapshot_name_spec(namespace1, start1, end1) == snapshot_name_spec(
            namespace2,
            start2,
            end2,
        ),
    ensures
        namespace1 == namespace2,
        start1 == start2,
        end1 == end2,
{
    let n1 = snapshot_name_spec(namespace1, start1, end1);
    let n2 = snapshot_name_spec(namespace2, start2, end2);
    let y1 = namespace1 + seq!['-'] + decimal(start1 as nat);
    let y2 = namespace2 + seq!['-'] + decimal(start2 as nat);
    let b1 = y1 + seq!['-'] + decimal(end1 as nat);
    let b2 = y2 + seq!['-'] + decimal(end2 as nat);
    assert(b1 =~= n1.subrange(0, n1.len() - 5));
    assert(b2 =~= n2.subrange(0, n2.len() - 5));
    lemma_decimal_digits(start1 as nat);
    lemma_decimal_digits(start2 as nat);
    lemma_decimal_digits(end1 as nat);
    lemma_decimal_digits(end2 as nat);
    lemma_split_at_last_dash(y1, decimal(end1 as nat), y2, decimal(end2 as nat));
    lemma_split_at_last_dash(
        namespace1,
        decimal(start1 as nat),
        namespace2,
        decimal(start2 as nat),
    );
    lemma_decimal_injective(start1 as nat, start2 as nat);
    lemma_decimal_injective(end1 as nat, end2 as nat);
}

/// The text of one decimal digit.
fn digit_str(d: u64) -> (s: &'static str)
    requires
        d < 10,
    ensures
        s@ == seq![digit_char(d as int)],
{
    proof {
        reveal_strlit("0");
        reveal_strlit("1");
        reveal_strlit("2");
        reveal_strlit("3");
        reveal_strlit("4");
        reveal_strlit("5");
        reveal_strlit("6");
        reveal_strlit("7");
        reveal_strlit("8");
        reveal_strlit("9");
    }
    let s: &'static str = if d == 0 {
        "0"
    } else if d == 1 {
        "1"
    } else if d == 2 {
        "2"
    } else if d == 3 {
        "3"
    } else if d == 4 {
        "4"
    } else if d == 5 {
        "5"
    } else if d == 6 {
        "6"
    } else if d == 7 {
        "7"
    } else if d == 8 {
        "8"
    } else {
        "9"
    };
    assert(s@ =~= seq![digit_char(d as int)]);
    s
}

/// Appends the decimal notation of `n` to `out`.
fn push_decimal(out: &mut String, n: u64)
    ensures
        final(out)@ == old(out)@ + decimal(n as nat),
    decreases n,
{
    if n >= 10 {
        push_decimal(out, n / 10);
    }
    let d: u64 = n % 10;
    out.append(digit_str(d));
    assert(out@ =~= old(out)@ + decimal(n as nat));
}

/// The file name under which the snapshot of `namespace` that covers the
/// frames `start_frame_no` to `end_frame_no` is published.
pub fn snapshot_name(namespace: &str, start_frame_no: u64, end_frame_no: u64) -> (name: String)
    ensures
        name@ == snapshot_name_spec(namespace@, start_frame_no, end_frame_no),
{
    proof {
        reveal_strlit("-");
        reveal_strlit(".snap");
    }
    let mut name = String::from_str(namespace);
    name.append("-");
    push_decimal(&mut name, start_frame_no);
    name.append("-");
    push_decimal(&mut name, end_frame_no);
    name.append(".snap");
    assert(name@ =~= snapshot_name_spec(namespace@, start_frame_no, end_frame_no));
    name
}

} // verus!
