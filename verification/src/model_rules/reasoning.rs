//! How hard a model is asked to think: the known levels and their order.

use crate::json;
use crate::lists;
use crate::text;
use vstd::prelude::*;
use vstd::string::*;

verus! {

/// The known levels, from the weakest to the strongest.
pub open spec fn levels() -> Seq<Seq<char>> {
    seq!["minimal"@, "low"@, "medium"@, "high"@, "xhigh"@, "max"@]
}

/// The place of a level among the known ones; none for any other text.
pub open spec fn rank(effort: Seq<char>) -> Option<int> {
    if effort == "minimal"@ {
        Some(0)
    } else if effort == "low"@ {
        Some(1)
    } else if effort == "medium"@ {
        Some(2)
    } else if effort == "high"@ {
        Some(3)
    } else if effort == "xhigh"@ {
        Some(4)
    } else if effort == "max"@ {
        Some(5)
    } else {
        None
    }
}

/// The place of a level among the known ones.
pub fn reasoning_rank(effort: &str) -> (r: Option<u8>)
    ensures
        r is Some <==> rank(effort@) is Some,
        r matches Some(n) ==> rank(effort@) == Some(n as int),
{
    if text::same(effort, "minimal") {
        Some(0)
    } else if text::same(effort, "low") {
        Some(1)
    } else if text::same(effort, "medium") {
        Some(2)
    } else if text::same(effort, "high") {
        Some(3)
    } else if text::same(effort, "xhigh") {
        Some(4)
    } else if text::same(effort, "max") {
        Some(5)
    } else {
        None
    }
}

/// A level as it is kept: without the white space at its ends. A blank text is no
/// level.
pub open spec fn normal_level(raw: Seq<char>) -> Option<Seq<char>> {
    if text::blank(raw) {
        None
    } else {
        Some(text::trimmed(raw))
    }
}

/// A level as it is kept.
pub fn normalize_reasoning(raw: &str) -> (r: Option<String>)
    ensures
        json::opt_string(r) == normal_level(raw@),
{
    let t = text::trim(raw);
    if t.as_str().is_empty() {
        None
    } else {
        Some(t)
    }
}

/// The known levels, from the weakest to the strongest.
pub fn reasoning_levels() -> (r: Vec<String>)
    ensures
        lists::views(r@) == levels(),
{
    let mut out: Vec<String> = Vec::new();
    out.push("minimal".to_owned());
    out.push("low".to_owned());
    out.push("medium".to_owned());
    out.push("high".to_owned());
    out.push("xhigh".to_owned());
    out.push("max".to_owned());
    proof {
        assert(lists::views(out@) =~= levels());
    }
    out
}

/// Each known level stands at the place that its rank says.
pub proof fn rank_is_place(i: int)
    requires
        0 <= i < levels().len(),
    ensures
        rank(levels()[i]) == Some(i),
{
    reveal_strlit("minimal");
    reveal_strlit("low");
    reveal_strlit("medium");
    reveal_strlit("high");
    reveal_strlit("xhigh");
    reveal_strlit("max");
    assert("minimal"@.len() == 7);
    assert("low"@.len() == 3);
    assert("medium"@.len() == 6);
    assert("high"@.len() == 4);
    assert("xhigh"@.len() == 5);
    assert("max"@.len() == 3);
    assert("low"@[0] == 'l');
    assert("max"@[0] == 'm');
}

} // verus!
