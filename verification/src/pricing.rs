//! List input prices of the known model families.

use vstd::prelude::*;
use vstd::utf8::is_ascii_chars;
use crate::text::{has_infix, str_contains};

verus! {

/// What `str::to_lowercase` gives for a string: its lowercase equivalent
/// under Unicode's Lowercase property.
pub uninterp spec fn lowercase_chars(s: Seq<char>) -> Seq<char>;

/// An ASCII capital letter made small; every other character as it is.
pub open spec fn ascii_lower_char(c: char) -> char {
    if 'A' <= c && c <= 'Z' {
        ((c as u32) + 32) as char
    } else {
        c
    }
}

/// Each character of `s` through `ascii_lower_char`.
pub open spec fn ascii_lowercase(s: Seq<char>) -> Seq<char> {
    s.map_values(|c: char| ascii_lower_char(c))
}

/// `str::to_lowercase`. The contract claims that the result depends on the
/// characters of `s` alone, which the name `lowercase_chars` stands for, and
/// what Unicode's lowercase mapping fixes for ASCII text: `A` to `Z` become
/// `a` to `z`, one for one, and every other ASCII character stays. Of other
/// text it claims nothing more.
#[verifier::external_body]
fn to_lowercase(s: &str) -> (r: String)
    ensures
        r@ == lowercase_chars(s@),
        is_ascii_chars(s@) ==> r@ == ascii_lowercase(s@),
{
    s.to_lowercase()
}

/// Whether either of two spellings occurs in `m`.
pub open spec fn mentions(m: Seq<char>, a: Seq<char>, b: Seq<char>) -> bool {
    has_infix(m, a) || has_infix(m, b)
}

/// The list input price, in US cents per million tokens, of the model whose
/// lowercased name is `m`; nothing for a model not known. The first family
/// that the name mentions decides.
pub open spec fn price_cents_for(m: Seq<char>) -> Option<u64> {
    if mentions(m, "opus-4"@, "opus4"@) {
        Some(1500)
    } else if mentions(m, "sonnet-4"@, "sonnet4"@) {
        Some(300)
    } else if mentions(m, "haiku-4"@, "haiku4"@) {
        Some(100)
    } else if mentions(m, "3-5-sonnet"@, "3.5-sonnet"@) {
        Some(300)
    } else if mentions(m, "3-5-haiku"@, "3.5-haiku"@) {
        Some(80)
    } else if mentions(m, "opus-3"@, "opus3"@) {
        Some(1500)
    } else if mentions(m, "sonnet-3"@, "sonnet3"@) {
        Some(300)
    } else if mentions(m, "haiku-3"@, "haiku3"@) {
        Some(25)
    } else {
        None
    }
}

fn mentions_either(m: &str, a: &str, b: &str) -> (r: bool)
    ensures
        r == mentions(m@, a@, b@),
{
    str_contains(m, a) || str_contains(m, b)
}

/// The price, in cents per million input tokens, for an already lowercased
/// model name.
pub fn price_for_lowercase_name(m: &str) -> (r: Option<u64>)
    ensures
        r == price_cents_for(m@),
{
    if mentions_either(m, "opus-4", "opus4") {
        Some(1500)
    } else if mentions_either(m, "sonnet-4", "sonnet4") {
        Some(300)
    } else if mentions_either(m, "haiku-4", "haiku4") {
        Some(100)
    } else if mentions_either(m, "3-5-sonnet", "3.5-sonnet") {
        Some(300)
    } else if mentions_either(m, "3-5-haiku", "3.5-haiku") {
        Some(80)
    } else if mentions_either(m, "opus-3", "opus3") {
        Some(1500)
    } else if mentions_either(m, "sonnet-3", "sonnet3") {
        Some(300)
    } else if mentions_either(m, "haiku-3", "haiku3") {
        Some(25)
    } else {
        None
    }
}

/// The list input price of a model of a known family, in US cents per million
/// tokens (1500 is $15.00). The name is lowercased first, so that for an
/// ASCII name the case of its letters does not matter.
pub fn model_price_per_mtok(model: &str) -> (r: Option<u64>)
    ensures
        r == price_cents_for(lowercase_chars(model@)),
        is_ascii_chars(model@) ==> r == price_cents_for(ascii_lowercase(model@)),
{
    let m = to_lowercase(model);
    price_for_lowercase_name(m.as_str())
}

/// The price ignores letter case: two names that differ only in the case of
/// ASCII letters lowercase alike, and so get the same price.
pub proof fn price_ignores_ascii_case(a: Seq<char>, b: Seq<char>)
    requires
        a.len() == b.len(),
        forall|i: int| 0 <= i < a.len() ==> ascii_lower_char(#[trigger] a[i]) == ascii_lower_char(b[i]),
    ensures
        ascii_lowercase(a) == ascii_lowercase(b),
        price_cents_for(ascii_lowercase(a)) == price_cents_for(ascii_lowercase(b)),
{
    assert(ascii_lowercase(a) =~= ascii_lowercase(b));
}

} // verus!

verus! {

/// Each family has its price, and the families are tried in a fixed order:
/// a lowercased name is priced by the first family in that order whose
/// spellings it contains, and one that contains none gets no price.
pub proof fn price_by_family(m: Seq<char>)
    ensures
        has_infix(m, "opus-4"@) || has_infix(m, "opus4"@) ==> price_cents_for(m) == Some(1500u64),
        !(has_infix(m, "opus-4"@) || has_infix(m, "opus4"@)) ==> {
            &&& (has_infix(m, "sonnet-4"@) || has_infix(m, "sonnet4"@)) ==> price_cents_for(m) == Some(300u64)
            &&& !(has_infix(m, "sonnet-4"@) || has_infix(m, "sonnet4"@)) ==> {
                &&& (has_infix(m, "haiku-4"@) || has_infix(m, "haiku4"@)) ==> price_cents_for(m) == Some(100u64)
                &&& !(has_infix(m, "haiku-4"@) || has_infix(m, "haiku4"@)) ==> {
                    &&& (has_infix(m, "3-5-sonnet"@) || has_infix(m, "3.5-sonnet"@)) ==> price_cents_for(m) == Some(300u64)
                    &&& !(has_infix(m, "3-5-sonnet"@) || has_infix(m, "3.5-sonnet"@)) ==> {
                        &&& (has_infix(m, "3-5-haiku"@) || has_infix(m, "3.5-haiku"@)) ==> price_cents_for(m) == Some(80u64)
                        &&& !(has_infix(m, "3-5-haiku"@) || has_infix(m, "3.5-haiku"@)) ==> {
                            &&& (has_infix(m, "opus-3"@) || has_infix(m, "opus3"@)) ==> price_cents_for(m) == Some(1500u64)
                            &&& !(has_infix(m, "opus-3"@) || has_infix(m, "opus3"@)) ==> {
                                &&& (has_infix(m, "sonnet-3"@) || has_infix(m, "sonnet3"@)) ==> price_cents_for(m) == Some(300u64)
                                &&& !(has_infix(m, "sonnet-3"@) || has_infix(m, "sonnet3"@)) ==> {
                                    &&& (has_infix(m, "haiku-3"@) || has_infix(m, "haiku3"@)) ==> price_cents_for(m) == Some(25u64)
                                    &&& !(has_infix(m, "haiku-3"@) || has_infix(m, "haiku3"@)) ==> price_cents_for(m) is None
                                }
                            }
                        }
                    }
                }
            }
        },
{
}

} // verus!
