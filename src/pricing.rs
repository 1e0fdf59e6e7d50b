//! Model pricing: lookup of a model by name in a pricing table, token
//! estimates from text length, and cost with an extended-context tier.
//! Prices are whole micro-dollars per million tokens, so a cost is exact in
//! pico-dollars (one dollar is 10^12).

use vstd::prelude::*;
use crate::json::{Json, member, items_of, text_member};
use crate::text::{
    lower_of, lowercase, same_text, contains_text, occurs_in, segment_start, segment_start_of, all_digits,
    digits_value, digits_up_to, is_digit,
};

verus! {

/// Characters of text per estimated token.
pub const CHARS_PER_TOKEN: usize = 4;

/// Input tokens above which the extended-context prices apply.
pub const EXTENDED_CONTEXT_THRESHOLD: u64 = 200_000;

/// Pricing and provider of one model.
pub struct ModelMetadata {
    pub model_id: String,
    pub provider: String,
    pub input_price_per_1m: u32,
    pub output_price_per_1m: u32,
    pub extended_input_price_per_1m: Option<u32>,
    pub extended_output_price_per_1m: Option<u32>,
}

/// The number of UTF-8 bytes that encode a character.
pub open spec fn utf8_width(c: char) -> nat {
    if (c as u32) < 0x80 {
        1
    } else if (c as u32) < 0x800 {
        2
    } else if (c as u32) < 0x10000 {
        3
    } else {
        4
    }
}

/// The number of UTF-8 bytes that encode a text.
pub open spec fn utf8_len(s: Seq<char>) -> nat
    decreases s.len(),
{
    if s.len() == 0 {
        0
    } else {
        utf8_len(s.drop_last()) + utf8_width(s.last())
    }
}

/// The index of the first entry from `i` on whose id is `name`.
pub open spec fn exact_from(ids: Seq<Seq<char>>, name: Seq<char>, i: int) -> Option<int>
    decreases ids.len() - i,
{
    if i < 0 || i >= ids.len() {
        None
    } else if ids[i] == name {
        Some(i)
    } else {
        exact_from(ids, name, i + 1)
    }
}

/// The index of the first entry from `i` on whose id contains `name` or is
/// contained in it.
pub open spec fn fuzzy_from(ids: Seq<Seq<char>>, name: Seq<char>, i: int) -> Option<int>
    decreases ids.len() - i,
{
    if i < 0 || i >= ids.len() {
        None
    } else if occurs_in(name, ids[i]) || occurs_in(ids[i], name) {
        Some(i)
    } else {
        fuzzy_from(ids, name, i + 1)
    }
}

/// The ids of a pricing table.
pub open spec fn model_ids(reg: Seq<ModelMetadata>) -> Seq<Seq<char>> {
    reg.map_values(|m: ModelMetadata| m.model_id@)
}

/// The entry that a model name selects: an exact match of its lower-case
/// form first, else the first entry related to it by containment either way.
pub open spec fn lookup_index(reg: Seq<ModelMetadata>, name: Seq<char>) -> Option<int> {
    let lower = lower_of(name);
    match exact_from(model_ids(reg), lower, 0) {
        Some(i) => Some(i),
        None => fuzzy_from(model_ids(reg), lower, 0),
    }
}

/// The cost in pico-dollars of a call, the extended prices applying to both
/// input and output once the input is above the threshold.
pub open spec fn cost_of(m: ModelMetadata, input_tokens: u64, output_tokens: u64) -> int {
    let extended = input_tokens > EXTENDED_CONTEXT_THRESHOLD;
    let input_price = if extended && m.extended_input_price_per_1m is Some {
        m.extended_input_price_per_1m.unwrap()
    } else {
        m.input_price_per_1m
    };
    let output_price = if extended && m.extended_output_price_per_1m is Some {
        m.extended_output_price_per_1m.unwrap()
    } else {
        m.output_price_per_1m
    };
    input_tokens * input_price + output_tokens * output_price
}

impl ModelMetadata {
    /// A copy of the entry.
    pub fn copy(&self) -> (r: ModelMetadata)
        ensures
            r == *self,
    {
        ModelMetadata {
            model_id: self.model_id.clone(),
            provider: self.provider.clone(),
            input_price_per_1m: self.input_price_per_1m,
            output_price_per_1m: self.output_price_per_1m,
            extended_input_price_per_1m: self.extended_input_price_per_1m,
            extended_output_price_per_1m: self.extended_output_price_per_1m,
        }
    }

    /// The entry of the pricing table that a model name selects.
    pub fn lookup(registry: &Vec<ModelMetadata>, model_name: &str) -> (r: Option<ModelMetadata>)
        ensures
            match lookup_index(registry@, model_name@) {
                Some(i) => r == Some(registry@[i]),
                None => r is None,
            },
    {
        let lower = lowercase(model_name);
        let ghost ids = model_ids(registry@);
        let mut i: usize = 0;
        while i < registry.len()
            invariant
                i <= registry.len(),
                ids == model_ids(registry@),
                lower@ == lower_of(model_name@),
                exact_from(ids, lower@, 0) == exact_from(ids, lower@, i as int),
            decreases registry.len() - i,
        {
            if same_text(registry[i].model_id.as_str(), lower.as_str()) {
                return Some(registry[i].copy());
            }
            i = i + 1;
        }
        let mut j: usize = 0;
        while j < registry.len()
            invariant
                j <= registry.len(),
                ids == model_ids(registry@),
                lower@ == lower_of(model_name@),
                exact_from(ids, lower@, 0) is None,
                fuzzy_from(ids, lower@, 0) == fuzzy_from(ids, lower@, j as int),
            decreases registry.len() - j,
        {
            let id = registry[j].model_id.as_str();
            if contains_text(lower.as_str(), id) || contains_text(id, lower.as_str()) {
                return Some(registry[j].copy());
            }
            j = j + 1;
        }
        None
    }

    /// Estimated tokens of a text: its length in bytes over the characters per
    /// token, rounded up.
    pub fn estimate_tokens(text: &str) -> (r: usize)
        ensures
            r as int == (utf8_len(text@) + 3) / 4,
    {
        let n = text.unicode_len();
        let mut bytes: u128 = 0;
        let mut i: usize = 0;
        while i < n
            invariant
                n == text@.len(),
                i <= n,
                bytes as int == utf8_len(text@.subrange(0, i as int)),
                bytes <= 4 * i,
            decreases n - i,
        {
            let ghost next = text@.subrange(0, i + 1);
            assert(next.drop_last() == text@.subrange(0, i as int));
            let c = text.get_char(i) as u32;
            let w: u128 = if c < 0x80 {
                1
            } else if c < 0x800 {
                2
            } else if c < 0x10000 {
                3
            } else {
                4
            };
            bytes = bytes + w;
            i = i + 1;
        }
        assert(text@.subrange(0, n as int) == text@);
        ((bytes + 3) / 4) as usize
    }

    /// The cost in pico-dollars of a call with the given token counts.
    pub fn calculate_cost(&self, input_tokens: u64, output_tokens: u64) -> (r: u128)
        ensures
            r as int == cost_of(*self, input_tokens, output_tokens),
    {
        let extended = input_tokens > EXTENDED_CONTEXT_THRESHOLD;
        let input_price = match self.extended_input_price_per_1m {
            Some(p) => if extended { p } else { self.input_price_per_1m },
            None => self.input_price_per_1m,
        };
        let output_price = match self.extended_output_price_per_1m {
            Some(p) => if extended { p } else { self.output_price_per_1m },
            None => self.output_price_per_1m,
        };
        let it = input_tokens as u128;
        let ip = input_price as u128;
        let ot = output_tokens as u128;
        let op = output_price as u128;
        assert(it * ip <= 0x1_0000_0000_0000_0000_0000_0000) by (nonlinear_arith)
            requires it <= 0xFFFF_FFFF_FFFF_FFFF, ip <= 0xFFFF_FFFF;
        assert(ot * op <= 0x1_0000_0000_0000_0000_0000_0000) by (nonlinear_arith)
            requires ot <= 0xFFFF_FFFF_FFFF_FFFF, op <= 0xFFFF_FFFF;
        it * ip + ot * op
    }
}

/// Ten to the power `n`.
pub open spec fn pow10(n: nat) -> nat
    decreases n,
{
    if n == 0 {
        1
    } else {
        10 * pow10((n - 1) as nat)
    }
}

proof fn lemma_digits_below_pow10(s: Seq<char>)
    requires
        forall|i: int| 0 <= i < s.len() ==> is_digit(#[trigger] s[i]),
    ensures
        0 <= digits_value(s) < pow10(s.len()),
    decreases s.len(),
{
    if s.len() > 0 {
        assert(is_digit(s[s.len() - 1]));
        assert forall|i: int| 0 <= i < s.drop_last().len() implies is_digit(#[trigger] s.drop_last()[i]) by {
            assert(s.drop_last()[i] == s[i]);
        }
        lemma_digits_below_pow10(s.drop_last());
    }
}

/// The micro-dollars that a decimal price text denotes: digits, optionally
/// followed by a point and at most six digits.
pub open spec fn micros_of_text(t: Seq<char>) -> Option<int> {
    let st = segment_start(t, '.');
    if st == 0 {
        if all_digits(t) { Some(digits_value(t) * 1_000_000) } else { None }
    } else {
        let w = t.subrange(0, st - 1);
        let f = t.subrange(st, t.len() as int);
        if all_digits(w) && all_digits(f) && f.len() <= 6 {
            Some(digits_value(w) * 1_000_000 + digits_value(f) * pow10((6 - f.len()) as nat))
        } else {
            None
        }
    }
}

/// A price in micro-dollars from a JSON number, where it fits.
pub open spec fn price_of(v: Option<Json>) -> Option<u32> {
    match v {
        Some(Json::Number(_, t)) => match micros_of_text(t@) {
            Some(m) => if m <= u32::MAX { Some(m as u32) } else { None },
            None => None,
        },
        _ => None,
    }
}

/// The micro-dollars of a decimal price text, where it fits in a `u32`.
pub fn price_from_text(t: &str) -> (r: Option<u32>)
    ensures
        r == (match micros_of_text(t@) {
            Some(m) => if m <= u32::MAX { Some(m as u32) } else { None },
            None => None,
        }),
{
    let n = t.unicode_len();
    let st = segment_start_of(t, '.');
    if st == 0 {
        assert(t@.subrange(0, n as int) == t@);
        match digits_up_to(t, 0, 4294) {
            Some(v) => Some((v * 1_000_000) as u32),
            None => None,
        }
    } else {
        let w = t.substring_char(0, st - 1);
        let f = t.substring_char(st, n);
        let fl = f.unicode_len();
        if fl > 6 {
            return None;
        }
        assert(w@.subrange(0, w@.len() as int) == w@);
        assert(f@.subrange(0, f@.len() as int) == f@);
        let whole = digits_up_to(w, 0, 4294);
        let frac = digits_up_to(f, 0, 1_000_000_000_000);
        proof {
            if all_digits(f@) {
                lemma_digits_below_pow10(f@);
                assert(pow10(0) == 1);
                assert(pow10(1) == 10);
                assert(pow10(2) == 100);
                assert(pow10(3) == 1000);
                assert(pow10(4) == 10000);
                assert(pow10(5) == 100000);
                assert(pow10(6) == 1000000);
            }
        }
        match (whole, frac) {
            (Some(a), Some(b)) => {
                let mult: u128 = if fl == 0 {
                    1_000_000
                } else if fl == 1 {
                    100_000
                } else if fl == 2 {
                    10_000
                } else if fl == 3 {
                    1_000
                } else if fl == 4 {
                    100
                } else if fl == 5 {
                    10
                } else {
                    1
                };
                proof {
                    assert(pow10(0) == 1);
                    assert(pow10(1) == 10);
                    assert(pow10(2) == 100);
                    assert(pow10(3) == 1000);
                    assert(pow10(4) == 10000);
                    assert(pow10(5) == 100000);
                    assert(pow10(6) == 1000000);
                    assert(mult == pow10((6 - fl) as nat));
                }
                assert(a <= 4294 && b <= 1_000_000_000_000);
                assert(mult <= 1_000_000);
                assert(b * mult <= 1_000_000_000_000_000_000) by (nonlinear_arith)
                    requires b <= 1_000_000_000_000, mult <= 1_000_000;
                let m = a * 1_000_000 + b * mult;
                if m <= 4_294_967_295 {
                    Some(m as u32)
                } else {
                    None
                }
            },
            (None, _) => {
                None
            },
            (Some(_), None) => None,
        }
    }
}

/// A price member of an entry of the pricing table.
fn price_member(v: &Json, key: &str) -> (r: Option<u32>)
    ensures
        r == price_of(member(*v, key@)),
{
    match v.get(key) {
        Some(Json::Number(_, t)) => price_from_text(t.as_str()),
        _ => None,
    }
}

/// An optional price member: absent or null is no price, a readable number a
/// price; `None` where the member holds anything else.
pub open spec fn optional_price_of(v: Option<Json>) -> Option<Option<u32>> {
    match v {
        None => Some(None),
        Some(Json::Null) => Some(None),
        Some(x) => match price_of(Some(x)) {
            Some(p) => Some(Some(p)),
            None => None,
        },
    }
}

/// What an entry of the pricing table states.
pub type MetaView = (Seq<char>, Seq<char>, u32, u32, Option<u32>, Option<u32>);

pub open spec fn meta_view(m: ModelMetadata) -> MetaView {
    (m.model_id@, m.provider@, m.input_price_per_1m, m.output_price_per_1m, m.extended_input_price_per_1m,
        m.extended_output_price_per_1m)
}

/// The entry that a JSON object of the pricing table gives, where it has a
/// model id, a provider, both base prices and readable extended prices.
pub open spec fn entry_of(v: Json) -> Option<MetaView> {
    match (
        text_member(v, "model_id"@),
        text_member(v, "provider"@),
        price_of(member(v, "input_price_per_1m"@)),
        price_of(member(v, "output_price_per_1m"@)),
        optional_price_of(member(v, "extended_input_price_per_1m"@)),
        optional_price_of(member(v, "extended_output_price_per_1m"@)),
    ) {
        (Some(id), Some(p), Some(i), Some(o), Some(ei), Some(eo)) => Some((id, p, i, o, ei, eo)),
        _ => None,
    }
}

/// The entries of the pricing table's items, in order, skipping unreadable ones.
pub open spec fn table_entries(items: Seq<Json>) -> Seq<MetaView>
    decreases items.len(),
{
    if items.len() == 0 {
        Seq::empty()
    } else {
        match entry_of(items.last()) {
            Some(e) => table_entries(items.drop_last()).push(e),
            None => table_entries(items.drop_last()),
        }
    }
}

fn optional_price_member(v: &Json, key: &str) -> (r: Option<Option<u32>>)
    ensures
        r == optional_price_of(member(*v, key@)),
{
    match v.get(key) {
        None => Some(None),
        Some(Json::Null) => Some(None),
        Some(Json::Number(_, t)) => match price_from_text(t.as_str()) {
            Some(p) => Some(Some(p)),
            None => None,
        },
        Some(_) => None,
    }
}

impl ModelMetadata {
    /// The pricing table that a JSON array of entries gives; entries that
    /// cannot be read are left out.
    pub fn registry_from_json(v: &Json) -> (r: Vec<ModelMetadata>)
        ensures
            r@.map_values(|m: ModelMetadata| meta_view(m)) == (match items_of(Some(*v)) {
                Some(items) => table_entries(items),
                None => Seq::empty(),
            }),
    {
        let mut out: Vec<ModelMetadata> = Vec::new();
        match v.as_array() {
            Some(items) => {
                let mut i: usize = 0;
                while i < items.len()
                    invariant
                        i <= items.len(),
                        out@.map_values(|m: ModelMetadata| meta_view(m)) == table_entries(items@.subrange(0, i as int)),
                    decreases items.len() - i,
                {
                    let e = &items[i];
                    assert(items@.subrange(0, i + 1).drop_last() == items@.subrange(0, i as int));
                    let ghost prev = out@;
                    match (
                        e.text_member("model_id"),
                        e.text_member("provider"),
                        price_member(e, "input_price_per_1m"),
                        price_member(e, "output_price_per_1m"),
                        optional_price_member(e, "extended_input_price_per_1m"),
                        optional_price_member(e, "extended_output_price_per_1m"),
                    ) {
                        (Some(id), Some(p), Some(ip), Some(op), Some(ei), Some(eo)) => {
                            let m = ModelMetadata {
                                model_id: id,
                                provider: p,
                                input_price_per_1m: ip,
                                output_price_per_1m: op,
                                extended_input_price_per_1m: ei,
                                extended_output_price_per_1m: eo,
                            };
                            out.push(m);
                            assert(out@.map_values(|m: ModelMetadata| meta_view(m)) =~= prev.map_values(
                                |m: ModelMetadata| meta_view(m),
                            ).push(meta_view(m)));
                        },
                        _ => {},
                    }
                    i = i + 1;
                }
                assert(items@.subrange(0, items.len() as int) == items@);
            },
            None => {},
        }
        out
    }
}

/// At exactly the threshold both input and output use the base prices; above
/// it both use the extended prices where the model has them.
pub proof fn lemma_cost_tier_boundary(m: ModelMetadata, output_tokens: u64)
    ensures
        cost_of(m, 200_000, output_tokens) == 200_000 * m.input_price_per_1m + output_tokens * m.output_price_per_1m,
        (m.extended_input_price_per_1m is Some && m.extended_output_price_per_1m is Some) ==> cost_of(m, 250_000, output_tokens)
            == 250_000 * m.extended_input_price_per_1m.unwrap() + output_tokens * m.extended_output_price_per_1m.unwrap(),
{
}

} // verus!
