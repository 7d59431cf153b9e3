//! What the lines that are shown tell.

use crate::json::Jv;
use crate::laws::holds;
use crate::model_rules::seed::SeedV;
use crate::model_rules::seed;
use crate::model_rules::RulesV;
use crate::providers;
use crate::providers::custom::forward;
use crate::routing;
use crate::text;
use crate::upstream::labels;
use crate::upstream::provider_loop;
use vstd::prelude::*;
use vstd::string::*;

verus! {

/// Whether a text tells another one, somewhere within itself.
pub open spec fn tells(whole: Seq<char>, part: Seq<char>) -> bool {
    exists|at: int|
        0 <= at && at + part.len() <= whole.len() && #[trigger] whole.subrange(at, at + part.len())
            == part
}

/// A text between two others is told.
proof fn told(a: Seq<char>, part: Seq<char>, b: Seq<char>)
    ensures
        tells(a + part + b, part),
{
    let whole = a + part + b;
    let at = a.len() as int;
    assert(whole.subrange(at, at + part.len()) =~= part);
}

/// What a part of a text tells, the text tells.
proof fn told_within(a: Seq<char>, part: Seq<char>, b: Seq<char>, inner: Seq<char>)
    requires
        tells(part, inner),
    ensures
        tells(a + part + b, inner),
{
    let whole = a + part + b;
    let at = choose|at: int|
        0 <= at && at + inner.len() <= part.len() && #[trigger] part.subrange(at, at + inner.len())
            == inner;
    let from = a.len() + at;
    assert(part.subrange(at, at + inner.len()) == inner);
    assert forall|i: int| 0 <= i < inner.len() implies whole[from + i] == inner[i] by {
        assert(part.subrange(at, at + inner.len())[i] == part[at + i]);
    }
    assert(whole.subrange(from, from + inner.len()) =~= inner);
}

/// The account that is asked next is told by its name and its priority, and its provider where
/// that is another one.
pub proof fn the_next_one_is_told(provider: Seq<char>, next: Jv)
    ensures
        ({
            let line = labels::next_text(provider, next);
            let owner = routing::owner_of(next);
            &&& tells(line, labels::display_of(next))
            &&& next.get("priority"@) matches Some(Jv::Int(n)) ==> i64::MIN <= n <= i64::MAX ==> tells(
                line,
                text::decimal_int(n),
            )
            &&& next.get("priority"@) is None ==> tells(line, "-"@)
            &&& owner != provider ==> tells(line, match providers::kind_of(owner) {
                Some(kind) => providers::kind_label(kind),
                None => owner,
            })
        }),
{
    let line = labels::next_text(provider, next);
    let owner = routing::owner_of(next);
    let name = labels::display_of(next);
    let rank = labels::priority_text(next);
    let open = "（优先级 "@;
    let switch = "，切换提供商 → "@;
    let close = "）"@;
    let label = match providers::kind_of(owner) {
        Some(kind) => providers::kind_label(kind),
        None => owner,
    };
    let home = if owner == provider {
        Seq::<char>::empty()
    } else {
        switch + label
    };
    let none = Seq::<char>::empty();
    assert(line == name + open + rank + home + close);
    assert(line =~= none + name + (open + rank + home + close));
    told(none, name, open + rank + home + close);
    assert(line =~= (name + open) + rank + (home + close));
    told(name + open, rank, home + close);
    if owner != provider {
        assert(line =~= (name + open + rank + switch) + label + close);
        told(name + open + rank + switch, label, close);
    }
}

/// Where an account is used up, the line tells whose turn it was, for which model, and whose it
/// is now.
pub proof fn rest_is_told(
    from: Seq<char>,
    model: Seq<char>,
    hint: Seq<char>,
    provider: Seq<char>,
    next: Jv,
    tried: nat,
)
    ensures
        ({
            let line = labels::rest_line(from, model, hint, provider, next);
            &&& tells(line, from)
            &&& tells(line, model)
            &&& tells(line, hint)
            &&& tells(line, labels::display_of(next))
        }),
        ({
            let report = labels::rest_report(from, model, hint, Some(next), tried);
            &&& tells(report, from)
            &&& tells(report, model)
            &&& tells(report, hint)
            &&& tells(report, labels::display_of(next))
        }),
        ({
            let report = labels::rest_report(from, model, hint, None, tried);
            &&& tells(report, model)
            &&& tells(report, text::decimal(tried))
        }),
{
    let nx = labels::next_text(provider, next);
    the_next_one_is_told(provider, next);
    let none = Seq::<char>::empty();
    let a = "⚠️ 账号 "@;
    let b = " 对模型 "@;
    let c = " 已限额"@;
    let d = "，按优先级降级 → "@;
    let line = labels::rest_line(from, model, hint, provider, next);
    assert(line == a + from + b + model + c + hint + d + nx);
    assert(line =~= a + from + (b + model + c + hint + d + nx));
    told(a, from, b + model + c + hint + d + nx);
    assert(line =~= (a + from + b) + model + (c + hint + d + nx));
    told(a + from + b, model, c + hint + d + nx);
    assert(line =~= (a + from + b + model + c) + hint + (d + nx));
    told(a + from + b + model + c, hint, d + nx);
    assert(line =~= (a + from + b + model + c + hint + d) + nx + none);
    told_within(a + from + b + model + c + hint + d, nx, none, labels::display_of(next));
    let e = "账号「"@;
    let f = "」对模型 "@;
    let g = "，按优先级降级 → 「"@;
    let h = "」"@;
    let name = labels::display_of(next);
    let report = labels::rest_report(from, model, hint, Some(next), tried);
    assert(report == e + from + f + model + c + hint + g + name + h);
    assert(report =~= e + from + (f + model + c + hint + g + name + h));
    told(e, from, f + model + c + hint + g + name + h);
    assert(report =~= (e + from + f) + model + (c + hint + g + name + h));
    told(e + from + f, model, c + hint + g + name + h);
    assert(report =~= (e + from + f + model + c) + hint + (g + name + h));
    told(e + from + f + model + c, hint, g + name + h);
    assert(report =~= (e + from + f + model + c + hint + g) + name + h);
    told(e + from + f + model + c + hint + g, name, h);
    let last = labels::rest_report(from, model, hint, None, tried);
    let p = "模型 "@;
    let q = " 在所有候选账号均已限额或禁用，无法继续转发（尝试过 "@;
    let r = " 个账号）"@;
    assert(last == p + model + q + text::decimal(tried) + r);
    assert(last =~= p + model + (q + text::decimal(tried) + r));
    told(p, model, q + text::decimal(tried) + r);
    told(p + model + q, text::decimal(tried), r);
}

/// Where an account fails, the line tells which one, for which model, with which status, and
/// whose turn it is now.
pub proof fn failure_is_told(
    label: Seq<char>,
    model: Seq<char>,
    status: int,
    provider: Seq<char>,
    next: Jv,
    custom: bool,
    total: nat,
)
    ensures
        ({
            let line = labels::failure_line(label, model, status, provider, next);
            &&& tells(line, label)
            &&& tells(line, model)
            &&& tells(line, text::decimal_int(status))
            &&& tells(line, labels::display_of(next))
        }),
        tells(labels::elsewhere_text(custom, next), labels::display_of(next)),
        tells(labels::elsewhere_text(true, next), "自定义转发失败"@),
        tells(labels::elsewhere_text(false, next), "会话式转发失败"@),
        tells(labels::spent_text(total), text::decimal(total)),
{
    let nx = labels::next_text(provider, next);
    the_next_one_is_told(provider, next);
    let none = Seq::<char>::empty();
    let a = "⚠️ 账号 "@;
    let b = " 对模型 "@;
    let c = " 转发失败（HTTP "@;
    let n = text::decimal_int(status);
    let d = "），按队列顺延 → "@;
    let line = labels::failure_line(label, model, status, provider, next);
    assert(line == a + label + b + model + c + n + d + nx);
    assert(line =~= a + label + (b + model + c + n + d + nx));
    told(a, label, b + model + c + n + d + nx);
    assert(line =~= (a + label + b) + model + (c + n + d + nx));
    told(a + label + b, model, c + n + d + nx);
    assert(line =~= (a + label + b + model + c) + n + (d + nx));
    told(a + label + b + model + c, n, d + nx);
    assert(line =~= (a + label + b + model + c + n + d) + nx + none);
    told_within(a + label + b + model + c + n + d, nx, none, labels::display_of(next));
    let name = labels::display_of(next);
    let open = "（优先级 "@;
    let rank = labels::priority_text(next);
    let close = "）"@;
    let own = "⚠️ 自定义转发失败，按队列顺延 → "@;
    let talk = "⚠️ 会话式转发失败，按队列顺延 → "@;
    let head = if custom {
        own
    } else {
        talk
    };
    let other = labels::elsewhere_text(custom, next);
    assert(other == head + name + open + rank + close);
    assert(other =~= head + name + (open + rank + close));
    told(head, name, open + rank + close);
    reveal_strlit("⚠️ 自定义转发失败，按队列顺延 → ");
    reveal_strlit("⚠️ 会话式转发失败，按队列顺延 → ");
    reveal_strlit("自定义转发失败");
    reveal_strlit("会话式转发失败");
    assert(own.subrange(3, 10) =~= "自定义转发失败"@);
    assert(talk.subrange(3, 10) =~= "会话式转发失败"@);
    assert(own.subrange(3, 3int + "自定义转发失败"@.len()) == "自定义转发失败"@);
    assert(talk.subrange(3, 3int + "会话式转发失败"@.len()) == "会话式转发失败"@);
    let rest = name + open + rank + close;
    assert(labels::elsewhere_text(true, next) =~= none + own + rest);
    assert(labels::elsewhere_text(false, next) =~= none + talk + rest);
    told_within(none, own, rest, "自定义转发失败"@);
    told_within(none, talk, rest, "会话式转发失败"@);
    let x = "⚠️ 换账号次数已用尽（最多 "@;
    let y = " 个），不再顺延，返回本次错误"@;
    told(x, text::decimal(total), y);
}

/// What a request goes through is told by its label, or by its host where it has none.
pub proof fn way_out_is_told(label: Seq<char>, host: Seq<char>)
    ensures
        label.len() > 0 ==> labels::way_out(Some((label, host))) == label,
        label.len() == 0 ==> labels::way_out(Some((label, host))) == host,
        labels::way_out(None) == "直连"@,
{
}

/// A retry is told with its reason, the seconds until it, and which one of how many it is.
pub proof fn retries_are_told(reason: Seq<char>, seconds: nat, used: nat, total: nat)
    ensures
        ({
            let line = provider_loop::retry_line(reason, (seconds * 1000) as int, used, total);
            &&& tells(line, reason)
            &&& tells(line, text::decimal(seconds) + " 秒后重试"@)
            &&& tells(line, text::decimal(used) + "/"@ + text::decimal(total))
        }),
{
    let line = provider_loop::retry_line(reason, (seconds * 1000) as int, used, total);
    let a = "⚠️ "@;
    let b = "；"@;
    let s = text::decimal(seconds);
    let c = " 秒后重试（第 "@;
    let u = text::decimal(used);
    let d = "/"@;
    let t = text::decimal(total);
    let e = " 次）"@;
    assert((seconds * 1000) / 1000 == seconds);
    assert(line == a + reason + b + s + c + u + d + t + e);
    assert(line =~= a + reason + (b + s + c + u + d + t + e));
    told(a, reason, b + s + c + u + d + t + e);
    assert(line =~= (a + reason + b + s + c) + (u + d + t) + e);
    told(a + reason + b + s + c, u + d + t, e);
    let short = " 秒后重试"@;
    reveal_strlit(" 秒后重试（第 ");
    reveal_strlit(" 秒后重试");
    let more = c.subrange(5, c.len() as int);
    assert(c =~= short + more);
    assert(line =~= (a + reason + b) + (s + short) + (more + u + d + t + e));
    told(a + reason + b, s + short, more + u + d + t + e);
}

/// The reason of the neutral prompt tells until when it holds, and what comes back then.
pub proof fn neutral_prompt_is_told(until: Seq<char>, label: Seq<char>)
    ensures
        tells(provider_loop::degrade_reason(until, label), until),
        tells(provider_loop::degrade_reason(until, label), label),
{
    let a = "内容策略拦截（疑似 system 指纹误报），换中性提示词重试一次；降级持续到 "@;
    let b = "（届时恢复「"@;
    let c = "」）"@;
    let whole = provider_loop::degrade_reason(until, label);
    assert(whole == a + until + b + label + c);
    assert(whole =~= a + until + (b + label + c));
    told(a, until, b + label + c);
    told(a + until + b, label, c);
}

/// The model that a request asks for is the text of its member, without the space around it.
pub proof fn asked_model_is_read(body: Jv, name: Seq<char>)
    requires
        holds(body, "model"@, name),
    ensures
        forward::requested_name(body) == text::trimmed(name),
        name.len() > 0 && !text::white_space(name[0]) && !text::white_space(name.last())
            ==> forward::requested_name(body) == name,
{
    if name.len() > 0 && !text::white_space(name[0]) && !text::white_space(name.last()) {
        assert(text::trimmed(name) =~= name);
    }
}

/// Among texts that stand next to each other, each is told.
proof fn listed(list: Seq<Seq<char>>, between: Seq<char>, i: int)
    requires
        0 <= i < list.len(),
    ensures
        tells(text::separated(list, between), list[i]),
    decreases list.len(),
{
    let none = Seq::<char>::empty();
    let whole = text::separated(list, between);
    if list.len() == 1 {
        assert(whole =~= none + list[0] + none);
        told(none, list[0], none);
    } else {
        let rest = text::separated(list.drop_last(), between);
        if i == list.len() - 1 {
            assert(whole =~= (rest + between) + list.last() + none);
            told(rest + between, list.last(), none);
        } else {
            listed(list.drop_last(), between, i);
            assert(list.drop_last()[i] == list[i]);
            assert(whole =~= none + rest + (between + list.last()));
            told_within(none, rest, between + list.last(), list[i]);
        }
    }
}

/// Each text in square brackets is told.
proof fn bracketed_tells(list: Seq<Seq<char>>, i: int)
    requires
        0 <= i < list.len(),
    ensures
        tells(seed::bracketed(list), list[i]),
{
    listed(list, ", "@, i);
    told_within("["@, text::separated(list, ", "@), "]"@, list[i]);
}

/// Defaults that close anything tell each model that they close, how many they are and whose
/// they are; else they tell nothing.
pub proof fn closed_models_are_told(label: Seq<char>, open: Seq<Seq<char>>, st: SeedV, i: int)
    ensures
        seed::only_told(label, open, st) is Some <==> st.closed.len() > 0,
        0 <= i < st.closed.len() ==> (seed::only_told(label, open, st) matches Some(line) && tells(
            line,
            st.closed[i],
        ) && tells(line, label) && tells(line, "默认禁用 "@ + text::decimal(st.closed.len()))),
{
    if 0 <= i < st.closed.len() {
        let none = Seq::<char>::empty();
        let a = "🧩 "@;
        let b = "模型默认规则: 默认只启用 "@;
        let c = "；默认禁用 "@;
        let n = text::decimal(st.closed.len());
        let d = " 个 "@;
        let o = seed::bracketed(open);
        let x = seed::bracketed(st.closed);
        let line = seed::only_told(label, open, st)->0;
        bracketed_tells(st.closed, i);
        assert(line == a + label + b + o + c + n + d + x);
        assert(line =~= a + label + (b + o + c + n + d + x));
        told(a, label, b + o + c + n + d + x);
        assert(line =~= (a + label + b + o + c + n + d) + x + none);
        told_within(a + label + b + o + c + n + d, x, none, st.closed[i]);
        let semi = "；"@;
        let word = "默认禁用 "@;
        reveal_strlit("；");
        reveal_strlit("默认禁用 ");
        reveal_strlit("；默认禁用 ");
        assert(c =~= semi + word);
        assert(line =~= (a + label + b + o + semi) + (word + n) + (d + x));
        told(a + label + b + o + semi, word + n, d + x);
    }
}

/// The defaults of Raccoon tell each model that they close and each name that they add; else
/// they tell nothing.
pub proof fn raccoon_defaults_are_told(st: SeedV, i: int, k: int)
    ensures
        seed::raccoon_told(st) is Some <==> st.closed.len() > 0 || st.added.len() > 0,
        0 <= i < st.closed.len() ==> (seed::raccoon_told(st) matches Some(line) && tells(
            line,
            st.closed[i],
        )),
        0 <= k < st.added.len() ==> (seed::raccoon_told(st) matches Some(line) && tells(
            line,
            st.added[k],
        )),
{
    let none = Seq::<char>::empty();
    let head = "🧩 小浣熊模型默认规则: "@;
    let shut = "默认禁用内部模型 "@ + seed::bracketed(st.closed);
    let more = "默认新增映射 "@ + seed::bracketed(st.added);
    let first = if st.closed.len() > 0 {
        seq![shut]
    } else {
        Seq::empty()
    };
    let parts = if st.added.len() > 0 {
        first.push(more)
    } else {
        first
    };
    if parts.len() > 0 {
        let all = text::separated(parts, "；"@);
        let line = head + all;
        assert(seed::raccoon_told(st) == Some(line));
        assert(line =~= head + all + none);
        if 0 <= i < st.closed.len() {
            bracketed_tells(st.closed, i);
            assert(shut =~= "默认禁用内部模型 "@ + seed::bracketed(st.closed) + none);
            told_within("默认禁用内部模型 "@, seed::bracketed(st.closed), none, st.closed[i]);
            listed(parts, "；"@, 0);
            assert(parts[0] == shut);
            tells_on(all, shut, st.closed[i]);
            told_within(head, all, none, st.closed[i]);
        }
        if 0 <= k < st.added.len() {
            bracketed_tells(st.added, k);
            assert(more =~= "默认新增映射 "@ + seed::bracketed(st.added) + none);
            told_within("默认新增映射 "@, seed::bracketed(st.added), none, st.added[k]);
            listed(parts, "；"@, parts.len() - 1);
            assert(parts.last() == more);
            tells_on(all, more, st.added[k]);
            told_within(head, all, none, st.added[k]);
        }
    }
}

/// What is told by a text that is told is told.
proof fn tells_on(whole: Seq<char>, part: Seq<char>, inner: Seq<char>)
    requires
        tells(whole, part),
        tells(part, inner),
    ensures
        tells(whole, inner),
{
    let at = choose|at: int|
        0 <= at && at + part.len() <= whole.len() && #[trigger] whole.subrange(at, at + part.len())
            == part;
    let a = whole.subrange(0, at);
    let b = whole.subrange(at + part.len(), whole.len() as int);
    assert(whole =~= a + part + b);
    told_within(a, part, b, inner);
}

/// Rules are stored after the defaults where a mark was added.
pub proof fn new_marks_are_stored(before: RulesV, st: SeedV, summary: Option<Seq<char>>)
    ensures
        seed::outcome_of(before, st, summary).save <==> st.rules.seeded.len() != before.seeded.len(),
        seed::outcome_of(before, st, summary).rules == st.rules,
        seed::outcome_of(before, st, summary).summary == summary,
{
}

} // verus!
