//! Pagination of collection queries.

use vstd::prelude::*;

verus! {

/// The character for a single decimal digit.
pub open spec fn spec_digit(d: nat) -> char
    recommends
        d < 10,
{
    if d == 0 {
        '0'
    } else if d == 1 {
        '1'
    } else if d == 2 {
        '2'
    } else if d == 3 {
        '3'
    } else if d == 4 {
        '4'
    } else if d == 5 {
        '5'
    } else if d == 6 {
        '6'
    } else if d == 7 {
        '7'
    } else if d == 8 {
        '8'
    } else {
        '9'
    }
}

/// The decimal rendering of a natural number, most significant digit first.
pub open spec fn spec_dec(n: nat) -> Seq<char>
    decreases n,
{
    if n < 10 {
        seq![spec_digit(n)]
    } else {
        spec_dec(n / 10) + seq![spec_digit(n % 10)]
    }
}

/// A decimal rendering is never empty, and numbers of ten or more have at
/// least two digits.
pub proof fn lemma_spec_dec_len(n: nat)
    ensures
        spec_dec(n).len() >= 1,
        n >= 10 ==> spec_dec(n).len() >= 2,
    decreases n,
{
    if n >= 10 {
        lemma_spec_dec_len(n / 10);
    }
}

/// Distinct numbers have distinct decimal renderings.
pub proof fn lemma_spec_dec_injective(a: nat, b: nat)
    ensures
        spec_dec(a) == spec_dec(b) ==> a == b,
    decreases a + b,
{
    if spec_dec(a) == spec_dec(b) {
        lemma_spec_dec_len(a);
        lemma_spec_dec_len(b);
        if a < 10 && b < 10 {
            assert(spec_dec(a)[0] == spec_digit(a));
            assert(spec_dec(b)[0] == spec_digit(b));
        } else if a >= 10 && b >= 10 {
            assert(spec_dec(a).last() == spec_digit(a % 10));
            assert(spec_dec(b).last() == spec_digit(b % 10));
            assert(a % 10 == b % 10);
            assert(spec_dec(a).drop_last() =~= spec_dec(a / 10));
            assert(spec_dec(b).drop_last() =~= spec_dec(b / 10));
            lemma_spec_dec_injective(a / 10, b / 10);
            assert(a == 10 * (a / 10) + a % 10);
            assert(b == 10 * (b / 10) + b % 10);
        } else if a < 10 {
            assert(spec_dec(a).len() == 1);
            assert(spec_dec(b).len() >= 2);
        } else {
            assert(spec_dec(b).len() == 1);
            assert(spec_dec(a).len() >= 2);
        }
    }
}

/// One decimal digit as a string slice.
fn digit_str(d: u64) -> (r: &'static str)
    requires
        d < 10,
    ensures
        r@ == seq![spec_digit(d as nat)],
{
    proof {
        reveal_strlit("0");
        reveal_strlit("1");
        reveal_strlit("2");
        reveal_strlit("3");
        reveal_strlit("4");
        reveal_strlit("5");
        reveal_strlit("6");
        reveal_strlit("7");
        reveal_strlit("8");
        reveal_strlit("9");
    }
    let r = match d {
        0 => "0",
        1 => "1",
        2 => "2",
        3 => "3",
        4 => "4",
        5 => "5",
        6 => "6",
        7 => "7",
        8 => "8",
        _ => "9",
    };
    proof {
        assert(r@ =~= seq![spec_digit(d as nat)]);
    }
    r
}

/// Appends the decimal rendering of `n` to `out`.
fn push_dec(n: u64, out: &mut String)
    ensures
        final(out)@ == old(out)@ + spec_dec(n as nat),
    decreases n,
{
    if n >= 10 {
        push_dec(n / 10, out);
    }
    let d = digit_str(n % 10);
    out.append(d);
    proof {
        assert(out@ =~= old(out)@ + spec_dec(n as nat));
    }
}

/// The decimal rendering of `n` as an owned string.
pub fn decimal_string(n: u64) -> (r: String)
    ensures
        r@ == spec_dec(n as nat),
{
    let mut s = String::new();
    push_dec(n, &mut s);
    proof {
        assert(s@ =~= spec_dec(n as nat));
    }
    s
}

/// A page of results: page numbers start at 1; `limit` rows per page.
#[derive(Clone, Copy, PartialEq, Eq, Structural, Debug)]
pub struct PageLimit {
    pub page: u32,
    pub limit: u32,
}

/// The saturating product `(page - 1) * limit`: the number of rows that
/// precede the requested page.
pub open spec fn spec_offset(pl: PageLimit) -> u32 {
    if pl.page == 0 {
        0u32
    } else if (pl.page - 1) * pl.limit > u32::MAX {
        u32::MAX
    } else {
        ((pl.page - 1) * pl.limit) as u32
    }
}

impl Default for PageLimit {
    /// The first page of fifty rows.
    fn default() -> (r: Self)
        ensures
            r.page == 1 && r.limit == 50,
    {
        PageLimit { page: 1, limit: 50 }
    }
}

impl PageLimit {
    /// How many rows precede the requested page, saturating on overflow.
    pub fn offset(&self) -> (r: u32)
        ensures
            r == spec_offset(*self),
    {
        let p = self.page.saturating_sub(1);
        match p.checked_mul(self.limit) {
            Some(r) => r,
            None => u32::MAX,
        }
    }

    /// The AQL `LIMIT offset, count` clause selecting this page.
    pub fn to_aql(&self) -> (r: String)
        ensures
            r@ == "LIMIT "@ + spec_dec(spec_offset(*self) as nat) + ", "@ + spec_dec(
                self.limit as nat,
            ),
    {
        let mut s = String::new();
        s.append("LIMIT ");
        push_dec(self.offset() as u64, &mut s);
        s.append(", ");
        push_dec(self.limit as u64, &mut s);
        proof {
            assert(s@ =~= "LIMIT "@ + spec_dec(spec_offset(*self) as nat) + ", "@ + spec_dec(
                self.limit as nat,
            ));
        }
        s
    }
}

/// The window of `s` selected by `pl`: `offset` rows are dropped and at most
/// `limit` rows are kept.
pub open spec fn spec_page<T>(s: Seq<T>, pl: PageLimit) -> Seq<T> {
    let start = if spec_offset(pl) as int <= s.len() {
        spec_offset(pl) as int
    } else {
        s.len() as int
    };
    let end = if start + pl.limit as int <= s.len() {
        start + pl.limit as int
    } else {
        s.len() as int
    };
    s.subrange(start, end)
}

/// Keeps only the rows of the page selected by `pl`, preserving their order.
pub fn vec_apply_page_limit<T>(mut rows: Vec<T>, pl: PageLimit) -> (r: Vec<T>)
    ensures
        r@ == spec_page(rows@, pl),
{
    let ghost orig = rows@;
    let offset = pl.offset() as usize;
    let start = if offset <= rows.len() {
        offset
    } else {
        rows.len()
    };
    let end = if pl.limit as usize <= rows.len() - start {
        start + pl.limit as usize
    } else {
        rows.len()
    };
    rows.truncate(end);
    proof {
        assert(rows@ =~= orig.subrange(0, end as int));
    }
    let mut dropped: usize = 0;
    while dropped < start
        invariant
            dropped <= start,
            start <= end <= orig.len(),
            rows@ == orig.subrange(dropped as int, end as int),
        decreases start - dropped,
    {
        rows.remove(0);
        dropped = dropped + 1;
        proof {
            assert(rows@ =~= orig.subrange(dropped as int, end as int));
        }
    }
    proof {
        assert(rows@ =~= spec_page(orig, pl));
    }
    rows
}

/// A result container that a page selection can be applied to.
pub trait ApplyPageLimit: Sized {
    /// The element type of the container's rows.
    type Row;

    /// The ordered rows this value holds.
    spec fn rows(&self) -> Seq<Self::Row>;

    /// Keeps only the rows of the requested page, in order.
    fn apply_page_limit(self, page_limit: PageLimit) -> (r: Self)
        ensures
            r.rows() == spec_page(self.rows(), page_limit),
    ;
}

impl<T> ApplyPageLimit for Vec<T> {
    type Row = T;

    open spec fn rows(&self) -> Seq<T> {
        self@
    }

    fn apply_page_limit(self, page_limit: PageLimit) -> (r: Self) {
        vec_apply_page_limit(self, page_limit)
    }
}

} // verus!
