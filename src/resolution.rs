//! How a dispute over escrowed funds is settled.

use vstd::prelude::*;

use crate::text::{
    decimal, lemma_decimal_digits, lemma_parse_decimal, parse_u8, parse_u8_spec, push_decimal,
    starts_with, str_equals,
};

verus! {

/// The outcome an adjudicator picks for a disputed escrow.
#[derive(Debug, Clone, Copy, PartialEq, Eq, Structural)]
pub enum DisputeResolution {
    /// Full refund to the buyer.
    BuyerFull,
    /// Full release to the seller.
    SellerFull,
    /// The buyer gets `buyer_percent`% and the seller `seller_percent`%, rounded down.
    Split { buyer_percent: u8, seller_percent: u8 },
    /// Nobody gets the funds.
    Burn,
}

impl DisputeResolution {
    /// A split is well formed when its percentages add up to exactly 100.
    pub open spec fn is_valid(self) -> bool {
        match self {
            DisputeResolution::Split { buyer_percent, seller_percent } =>
                buyer_percent + seller_percent == 100,
            _ => true,
        }
    }

    /// What the buyer receives out of an escrow of `total`.
    pub open spec fn buyer_share(self, total: int) -> int {
        match self {
            DisputeResolution::BuyerFull => total,
            DisputeResolution::SellerFull => 0,
            DisputeResolution::Split { buyer_percent, .. } => total * buyer_percent / 100,
            DisputeResolution::Burn => 0,
        }
    }

    /// What the seller receives out of an escrow of `total`.
    pub open spec fn seller_share(self, total: int) -> int {
        match self {
            DisputeResolution::BuyerFull => 0,
            DisputeResolution::SellerFull => total,
            DisputeResolution::Split { seller_percent, .. } => total * seller_percent / 100,
            DisputeResolution::Burn => 0,
        }
    }

    /// What nobody receives: the rounding remainder of a split, or all of a burn.
    pub open spec fn destroyed_remainder(self, total: int) -> int {
        match self {
            DisputeResolution::BuyerFull => 0,
            DisputeResolution::SellerFull => 0,
            DisputeResolution::Split { .. } =>
                total - self.buyer_share(total) - self.seller_share(total),
            DisputeResolution::Burn => total,
        }
    }

    /// Whether a split's percentages add up to exactly 100; other kinds always are.
    pub fn validate(&self) -> (r: bool)
        ensures
            r == self.is_valid(),
    {
        match *self {
            DisputeResolution::Split { buyer_percent, seller_percent } =>
                (buyer_percent as u16) + (seller_percent as u16) == 100,
            _ => true,
        }
    }

    /// Amounts credited to buyer and seller out of an escrow of `total`.
    pub fn calculate_amounts(&self, total: i64) -> (r: (i64, i64))
        requires
            self.is_valid(),
            total >= 0,
        ensures
            r.0 == self.buyer_share(total as int),
            r.1 == self.seller_share(total as int),
    {
        match *self {
            DisputeResolution::BuyerFull => (total, 0),
            DisputeResolution::SellerFull => (0, total),
            DisputeResolution::Burn => (0, 0),
            DisputeResolution::Split { buyer_percent, seller_percent } => {
                let t = total as i128;
                proof {
                    percent_of_fits(total as int, buyer_percent as int);
                    percent_of_fits(total as int, seller_percent as int);
                }
                let b = t * (buyer_percent as i128) / 100;
                let s = t * (seller_percent as i128) / 100;
                (b as i64, s as i64)
            }
        }
    }
}

/// `i` is the position of the one and only `_` in `rest`.
pub open spec fn sole_separator(rest: Seq<char>, i: int) -> bool {
    &&& 0 <= i < rest.len()
    &&& rest[i] == '_'
    &&& forall|j: int| 0 <= j < rest.len() && j != i ==> rest[j] != '_'
}

/// The two halves around the only `_` of `rest`; `None` unless there is exactly one.
pub open spec fn split_parts(rest: Seq<char>) -> Option<(Seq<char>, Seq<char>)> {
    if exists|i: int| sole_separator(rest, i) {
        let i = choose|i: int| sole_separator(rest, i);
        Some((rest.subrange(0, i), rest.subrange(i + 1, rest.len() as int)))
    } else {
        None
    }
}

/// The resolution named by the part of `split_<b>_<s>` after `split_`.
pub open spec fn parse_split(rest: Seq<char>) -> Option<DisputeResolution> {
    match split_parts(rest) {
        Some((a, b)) => match (parse_u8_spec(a), parse_u8_spec(b)) {
            (Some(x), Some(y)) => if x + y == 100 {
                Some(DisputeResolution::Split { buyer_percent: x, seller_percent: y })
            } else {
                None
            },
            _ => None,
        },
        None => None,
    }
}

/// The grammar `buyer_full | seller_full | burn | split_<b>_<s>` with `b + s == 100`.
pub open spec fn parse_resolution(s: Seq<char>) -> Option<DisputeResolution> {
    if s == "buyer_full"@ {
        Some(DisputeResolution::BuyerFull)
    } else if s == "seller_full"@ {
        Some(DisputeResolution::SellerFull)
    } else if s == "burn"@ {
        Some(DisputeResolution::Burn)
    } else if "split_"@.len() <= s.len() && s.subrange(0, "split_"@.len() as int) == "split_"@ {
        parse_split(s.subrange("split_"@.len() as int, s.len() as int))
    } else {
        None
    }
}

/// The text that names a resolution.
pub open spec fn resolution_text(r: DisputeResolution) -> Seq<char> {
    match r {
        DisputeResolution::BuyerFull => "buyer_full"@,
        DisputeResolution::SellerFull => "seller_full"@,
        DisputeResolution::Burn => "burn"@,
        DisputeResolution::Split { buyer_percent, seller_percent } =>
            "split_"@ + decimal(buyer_percent as nat) + "_"@ + decimal(seller_percent as nat),
    }
}

/// Position of the only `_` in `rest`, if there is exactly one.
fn find_sole_separator(rest: &str) -> (r: Option<usize>)
    ensures
        match r {
            Some(i) => sole_separator(rest@, i as int),
            None => !exists|i: int| sole_separator(rest@, i),
        },
{
    let n = rest.unicode_len();
    let mut first: Option<usize> = None;
    let mut i: usize = 0;
    while i < n
        invariant
            n == rest@.len(),
            i <= n,
            match first {
                Some(f) => f < i && rest@[f as int] == '_' && forall|j: int|
                    0 <= j < i && j != f ==> rest@[j] != '_',
                None => forall|j: int| 0 <= j < i ==> rest@[j] != '_',
            },
        decreases n - i,
    {
        if rest.get_char(i) == '_' {
            match first {
                Some(f) => {
                    assert(!exists|k: int| sole_separator(rest@, k)) by {
                        assert forall|k: int| !sole_separator(rest@, k) by {
                            if sole_separator(rest@, k) {
                                if k == f as int {
                                    assert(rest@[i as int] != '_');
                                } else {
                                    assert(rest@[f as int] != '_');
                                }
                            }
                        }
                    }
                    return None;
                },
                None => {
                    first = Some(i);
                },
            }
        }
        i = i + 1;
    }
    match first {
        Some(f) => Some(f),
        None => {
            assert forall|k: int| !sole_separator(rest@, k) by {
                if sole_separator(rest@, k) {
                    assert(rest@[k] != '_');
                }
            }
            None
        },
    }
}

impl DisputeResolution {
    /// Reads a resolution from its text; `None` for any text outside the grammar.
    pub fn from_str(s: &str) -> (r: Option<Self>)
        ensures
            r == parse_resolution(s@),
            r matches Some(res) ==> res.is_valid(),
    {
        if str_equals(s, "buyer_full") {
            return Some(DisputeResolution::BuyerFull);
        }
        if str_equals(s, "seller_full") {
            return Some(DisputeResolution::SellerFull);
        }
        if str_equals(s, "burn") {
            return Some(DisputeResolution::Burn);
        }
        let prefix = "split_";
        if !starts_with(s, prefix) {
            return None;
        }
        let rest = s.substring_char(prefix.unicode_len(), s.unicode_len());
        match find_sole_separator(rest) {
            None => {
                assert(split_parts(rest@) is None);
                None
            },
            Some(i) => {
                proof {
                    let k = choose|k: int| sole_separator(rest@, k);
                    assert(sole_separator(rest@, k));
                    if k != i as int {
                        assert(rest@[k] != '_');
                    }
                }
                let a = rest.substring_char(0, i);
                let b = rest.substring_char(i + 1, rest.unicode_len());
                match (parse_u8(a), parse_u8(b)) {
                    (Some(x), Some(y)) => {
                        if (x as u16) + (y as u16) == 100 {
                            Some(DisputeResolution::Split { buyer_percent: x, seller_percent: y })
                        } else {
                            None
                        }
                    },
                    _ => None,
                }
            },
        }
    }

    /// The text that names this resolution, as `from_str` reads it.
    pub fn to_str(&self) -> (r: String)
        ensures
            r@ == resolution_text(*self),
    {
        match *self {
            DisputeResolution::BuyerFull => String::from_str("buyer_full"),
            DisputeResolution::SellerFull => String::from_str("seller_full"),
            DisputeResolution::Burn => String::from_str("burn"),
            DisputeResolution::Split { buyer_percent, seller_percent } => {
                let mut out = String::from_str("split_");
                push_decimal(&mut out, buyer_percent);
                out.append("_");
                push_decimal(&mut out, seller_percent);
                out
            },
        }
    }
}

proof fn percent_of_fits(total: int, p: int)
    requires
        0 <= total,
        0 <= p <= 100,
    ensures
        0 <= total * p / 100 <= total,
        total * p <= total * 100,
{
    assert(total * p <= total * 100) by (nonlinear_arith)
        requires
            0 <= total,
            p <= 100,
    ;
    assert(0 <= total * p) by (nonlinear_arith)
        requires
            0 <= total,
            0 <= p,
    ;
}

/// Every resolution of a valid kind hands out exactly the escrowed amount: what the
/// buyer gets, what the seller gets and what is destroyed add up to the total, and
/// none of the three is negative.
pub proof fn lemma_resolution_conserves_amount(r: DisputeResolution, total: int)
    requires
        r.is_valid(),
        total >= 0,
    ensures
        r.buyer_share(total) + r.seller_share(total) + r.destroyed_remainder(total) == total,
        r.buyer_share(total) >= 0,
        r.seller_share(total) >= 0,
        r.destroyed_remainder(total) >= 0,
{
    if let DisputeResolution::Split { buyer_percent, seller_percent } = r {
        let b = buyer_percent as int;
        let s = seller_percent as int;
        percent_of_fits(total, b);
        percent_of_fits(total, s);
        assert(total * b / 100 + total * s / 100 <= total) by (nonlinear_arith)
            requires
                b + s == 100,
                0 <= b,
                0 <= s,
                0 <= total,
        ;
    }
}

/// Writing a valid resolution out with `to_str` and reading it back with `from_str` gives
/// the same resolution.
pub proof fn lemma_resolution_text_round_trip(r: DisputeResolution)
    requires
        r.is_valid(),
    ensures
        parse_resolution(resolution_text(r)) == Some(r),
{
    reveal_strlit("buyer_full");
    reveal_strlit("seller_full");
    reveal_strlit("burn");
    reveal_strlit("split_");
    reveal_strlit("_");
    let t = resolution_text(r);
    match r {
        DisputeResolution::BuyerFull => {},
        DisputeResolution::SellerFull => {
            assert(t[1] != "buyer_full"@[1]);
        },
        DisputeResolution::Burn => {
            assert(t.len() != "buyer_full"@.len());
            assert(t.len() != "seller_full"@.len());
        },
        DisputeResolution::Split { buyer_percent, seller_percent } => {
            let db = decimal(buyer_percent as nat);
            let ds = decimal(seller_percent as nat);
            lemma_decimal_digits(buyer_percent as nat);
            lemma_decimal_digits(seller_percent as nat);
            lemma_parse_decimal(buyer_percent);
            lemma_parse_decimal(seller_percent);
            assert(t[1] == 'p');
            assert(t[1] != "buyer_full"@[1]);
            assert(t[1] != "seller_full"@[1]);
            assert(t[1] != "burn"@[1]);
            assert(t.subrange(0, 6) =~= "split_"@);
            let rest = t.subrange(6, t.len() as int);
            assert(rest =~= db + "_"@ + ds);
            let i = db.len() as int;
            assert(rest[i] == '_');
            assert forall|j: int| 0 <= j < rest.len() && j != i implies rest[j] != '_' by {
                if j < i {
                    assert(rest[j] == db[j]);
                } else {
                    assert(rest[j] == ds[j - i - 1]);
                }
            }
            assert(sole_separator(rest, i));
            let k = choose|k: int| sole_separator(rest, k);
            assert(k == i);
            assert(rest.subrange(0, i) =~= db);
            assert(rest.subrange(i + 1, rest.len() as int) =~= ds);
        },
    }
}

} // verus!
