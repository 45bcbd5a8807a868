//! Token counts as they are shown.
use super::editor::saturated;
use crate::text::{concat2, concat3, decimal, decimal_of, owned};
use crate::types::Usage;
use vstd::prelude::*;

verus! {

/// The tokens of a turn.
#[derive(Debug, Clone, Copy, PartialEq, Eq, Structural)]
pub struct TurnUsage {
    pub input_tokens: usize,
    pub output_tokens: usize,
    pub cached_input_tokens: usize,
    pub cache_miss_input_tokens: usize,
    pub reasoning_output_tokens: usize,
}

impl TurnUsage {
    pub open spec fn from_counts(usage: Usage) -> TurnUsage {
        TurnUsage {
            input_tokens: usage.input_tokens,
            output_tokens: usage.output_tokens,
            cached_input_tokens: usage.cached_input_tokens,
            cache_miss_input_tokens: usage.cache_miss_input_tokens,
            reasoning_output_tokens: usage.reasoning_output_tokens,
        }
    }

    pub fn of(usage: Usage) -> (r: Self)
        ensures
            r == TurnUsage::from_counts(usage),
    {
        TurnUsage {
            input_tokens: usage.input_tokens,
            output_tokens: usage.output_tokens,
            cached_input_tokens: usage.cached_input_tokens,
            cache_miss_input_tokens: usage.cache_miss_input_tokens,
            reasoning_output_tokens: usage.reasoning_output_tokens,
        }
    }

    /// Whether any count is above zero.
    pub open spec fn reported(self) -> bool {
        self.input_tokens > 0 || self.output_tokens > 0 || self.cached_input_tokens > 0
            || self.cache_miss_input_tokens > 0 || self.reasoning_output_tokens > 0
    }

    pub fn has_reported_tokens(&self) -> (r: bool)
        ensures
            r == self.reported(),
    {
        self.input_tokens > 0 || self.output_tokens > 0 || self.cached_input_tokens > 0
            || self.cache_miss_input_tokens > 0 || self.reasoning_output_tokens > 0
    }

    /// The counts of two turns together, as far as they can be counted.
    pub open spec fn plus(self, more: TurnUsage) -> TurnUsage {
        TurnUsage {
            input_tokens: saturated(self.input_tokens + more.input_tokens),
            output_tokens: saturated(self.output_tokens + more.output_tokens),
            cached_input_tokens: saturated(self.cached_input_tokens + more.cached_input_tokens),
            cache_miss_input_tokens: saturated(
                self.cache_miss_input_tokens + more.cache_miss_input_tokens,
            ),
            reasoning_output_tokens: saturated(
                self.reasoning_output_tokens + more.reasoning_output_tokens,
            ),
        }
    }

    pub fn add_assign(&mut self, more: &TurnUsage)
        ensures
            *final(self) == old(self).plus(*more),
    {
        self.input_tokens = self.input_tokens.saturating_add(more.input_tokens);
        self.output_tokens = self.output_tokens.saturating_add(more.output_tokens);
        self.cached_input_tokens = self.cached_input_tokens.saturating_add(
            more.cached_input_tokens,
        );
        self.cache_miss_input_tokens = self.cache_miss_input_tokens.saturating_add(
            more.cache_miss_input_tokens,
        );
        self.reasoning_output_tokens = self.reasoning_output_tokens.saturating_add(
            more.reasoning_output_tokens,
        );
    }

    /// The input tokens that a cache could have held.
    pub open spec fn cacheable(self) -> usize {
        saturated(self.cached_input_tokens + self.cache_miss_input_tokens)
    }

    /// The part of them that a cache held, in percent.
    pub open spec fn hit_rate(self) -> nat {
        (saturated(self.cached_input_tokens * 100) / self.cacheable()) as nat
    }

    pub open spec fn cache_text(self) -> Seq<char> {
        if self.cacheable() > 0 {
            ", cache hit "@ + decimal(self.hit_rate()) + "% ("@ + decimal(
                self.cached_input_tokens as nat,
            ) + "/"@ + decimal(self.cacheable() as nat) + ")"@
        } else {
            Seq::empty()
        }
    }

    pub open spec fn reasoning_text(self) -> Seq<char> {
        if self.reasoning_output_tokens > 0 {
            ", reasoning "@ + decimal(self.reasoning_output_tokens as nat)
        } else {
            Seq::empty()
        }
    }

    /// The counts in words, behind a heading.
    pub open spec fn described(self, heading: Seq<char>) -> Seq<char> {
        heading + decimal(self.input_tokens as nat) + "/"@ + decimal(self.output_tokens as nat)
            + self.cache_text() + self.reasoning_text()
    }

    fn describe(&self, heading: &str) -> (r: String)
        ensures
            r@ == self.described(heading@),
    {
        let mut text = concat3(heading, decimal_of(self.input_tokens as u64).as_str(), "/");
        text.append(decimal_of(self.output_tokens as u64).as_str());
        let total: usize = self.cached_input_tokens.saturating_add(self.cache_miss_input_tokens);
        let ghost before = text@;
        if total > 0 {
            let scaled: usize = if self.cached_input_tokens > usize::MAX / 100 {
                usize::MAX
            } else {
                self.cached_input_tokens * 100
            };
            let rate: usize = scaled / total;
            let mut cache = concat3(", cache hit ", decimal_of(rate as u64).as_str(), "% (");
            cache.append(decimal_of(self.cached_input_tokens as u64).as_str());
            cache.append("/");
            cache.append(decimal_of(total as u64).as_str());
            cache.append(")");
            text.append(cache.as_str());
        }
        assert(text@ =~= before + self.cache_text());
        let ghost before = text@;
        if self.reasoning_output_tokens > 0 {
            let reasoning = concat2(
                ", reasoning ",
                decimal_of(self.reasoning_output_tokens as u64).as_str(),
            );
            text.append(reasoning.as_str());
        }
        assert(text@ =~= before + self.reasoning_text());
        text
    }
}

/// A text with the counts of the last turn behind it, if there are any.
pub open spec fn with_usage(base: Seq<char>, usage: Option<TurnUsage>) -> Seq<char> {
    match usage {
        Some(usage) => base + " · "@ + usage.described("last in/out "@),
        None => base,
    }
}

pub fn append_usage_summary(base: &str, usage: Option<&TurnUsage>) -> (r: String)
    ensures
        r@ == with_usage(
            base@,
            match usage {
                Some(usage) => Some(*usage),
                None => None,
            },
        ),
{
    match usage {
        Some(usage) => concat3(base, " · ", usage.describe("last in/out ").as_str()),
        None => owned(base),
    }
}

/// The counts of a whole run in words.
pub fn usage_summary(usage: &TurnUsage) -> (r: String)
    ensures
        r@ == usage.described("usage: in/out "@),
{
    usage.describe("usage: in/out ")
}

} // verus!
