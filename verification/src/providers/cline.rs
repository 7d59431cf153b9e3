//! The two pools of Cline: which pool a model is of, and what it is called outside.
//!
//! A model of a pool is written with the channel of the pool before it, as in
//! `cline-free/deepseek-v4.1-flash`. Some are written without one.

use crate::text;
use vstd::prelude::*;
use vstd::string::*;

verus! {

/// A pool.
#[derive(Clone, Copy, Debug, PartialEq, Eq, Structural)]
pub enum Pool {
    Free,
    Pass,
}

impl Pool {
    /// The provider that the pool is.
    pub open spec fn name(self) -> Seq<char> {
        match self {
            Pool::Free => "cline-free"@,
            Pool::Pass => "cline-pass"@,
        }
    }

    /// The channel of the pool, as it stands before a model.
    pub open spec fn channel(self) -> Seq<char> {
        match self {
            Pool::Free => "cline-free/"@,
            Pool::Pass => "cline-pass/"@,
        }
    }

    /// The provider that the pool is.
    pub fn provider_id(self) -> (r: &'static str)
        ensures
            r@ == self.name(),
    {
        match self {
            Pool::Free => "cline-free",
            Pool::Pass => "cline-pass",
        }
    }

    /// The channel of the pool, as it stands before a model.
    pub fn target_prefix(self) -> (r: &'static str)
        ensures
            r@ == self.channel(),
    {
        match self {
            Pool::Free => "cline-free/",
            Pool::Pass => "cline-pass/",
        }
    }

    /// The pool that a provider is.
    pub fn from_provider_id(id: &str) -> (r: Option<Pool>)
        ensures
            r == pool_named(id@),
    {
        if text::same(id, "cline-free") {
            Some(Pool::Free)
        } else if text::same(id, "cline-pass") {
            Some(Pool::Pass)
        } else {
            None
        }
    }
}

/// The pool that a provider is.
pub open spec fn pool_named(id: Seq<char>) -> Option<Pool> {
    if id == "cline-free"@ {
        Some(Pool::Free)
    } else if id == "cline-pass"@ {
        Some(Pool::Pass)
    } else {
        None
    }
}

/// The pool of a model by its channel; one without a channel is of the pool `bare`.
pub open spec fn pool_by_channel(id: Seq<char>, bare: Pool) -> Pool {
    if text::has_prefix(id, Pool::Free.channel()) {
        Pool::Free
    } else if text::has_prefix(id, Pool::Pass.channel()) {
        Pool::Pass
    } else {
        bare
    }
}

/// The pool of a model by its channel; one without a channel is of the pool `bare`.
pub fn pool_of(id: &str, bare: Pool) -> (r: Pool)
    ensures
        r == pool_by_channel(id@, bare),
{
    if text::starts_with(id, Pool::Free.target_prefix()) {
        Pool::Free
    } else if text::starts_with(id, Pool::Pass.target_prefix()) {
        Pool::Pass
    } else {
        bare
    }
}

/// Whether a model is written with a channel.
pub open spec fn has_channel(id: Seq<char>) -> bool {
    text::has_prefix(id, Pool::Free.channel()) || text::has_prefix(id, Pool::Pass.channel())
}

/// Whether a model is written with a channel.
pub fn is_cline_channel(id: &str) -> (r: bool)
    ensures
        r == has_channel(id@),
{
    text::starts_with(id, Pool::Free.target_prefix()) || text::starts_with(
        id,
        Pool::Pass.target_prefix(),
    )
}

/// The short name of a model: without its channel, and in the free pool without the
/// name of the maker. A model that is already short has none.
pub open spec fn short_name(pool: Pool, id: Seq<char>) -> Option<Seq<char>> {
    if has_channel(id) {
        Some(id.skip(11))
    } else {
        let slash = text::place_of(id, '/', 0);
        if pool == Pool::Free && slash < id.len() {
            Some(id.skip(slash + 1))
        } else {
            None
        }
    }
}

/// The short name of a model.
pub fn friendly_alias(pool: Pool, id: &str) -> (r: Option<String>)
    ensures
        r is Some <==> short_name(pool, id@) is Some,
        r matches Some(s) ==> short_name(pool, id@) == Some(s@),
{
    let chars = text::chars_of(id);
    if is_cline_channel(id) {
        proof {
            reveal_strlit("cline-free/");
            reveal_strlit("cline-pass/");
            assert("cline-free/"@.len() == 11);
            assert("cline-pass/"@.len() == 11);
        }
        return Some(text::skip_chars(id, 11));
    }
    let slash = text::find_char(&chars, '/');
    if pool == Pool::Free && slash < chars.len() {
        Some(text::skip_chars(id, slash + 1))
    } else {
        None
    }
}

/// A pool is found again by the provider that it is.
pub proof fn pool_found_again(pool: Pool)
    ensures
        pool_named(pool.name()) == Some(pool),
{
    reveal_strlit("cline-free");
    reveal_strlit("cline-pass");
    assert("cline-free"@[6] == 'f');
    assert("cline-pass"@[6] == 'p');
}

/// A model that is written with the channel of a pool is of that pool.
pub proof fn channel_tells_pool(pool: Pool, rest: Seq<char>, bare: Pool)
    ensures
        pool_by_channel(pool.channel() + rest, bare) == pool,
        short_name(bare, pool.channel() + rest) == Some(rest),
{
    reveal_strlit("cline-free/");
    reveal_strlit("cline-pass/");
    let id = pool.channel() + rest;
    assert("cline-free/"@.len() == 11);
    assert("cline-pass/"@.len() == 11);
    assert("cline-free/"@[6] == 'f');
    assert("cline-pass/"@[6] == 'p');
    assert(id.take(11) =~= pool.channel());
    assert(id.take(11)[6] == pool.channel()[6]);
    assert(id.skip(11) =~= rest);
}

} // verus!
