//! The guard against repeating a tool call that keeps failing.
use crate::json::{json_model, same_json, Json};
use crate::text::same_text;
use serde_json::Value;
use vstd::prelude::*;

verus! {

/// After this many failures in a row, the same call is not executed again.
pub const REPEATED_FAILURE_LIMIT: usize = 2;

/// The tool and the input of a call.
#[derive(Debug)]
struct ToolCallSignature {
    name: String,
    input: Value,
}

#[derive(Debug)]
struct FailureStreak {
    signature: ToolCallSignature,
    count: usize,
}

/// Counts how often the same call has failed in a row.
#[derive(Debug)]
pub struct RepeatedFailureGuard {
    streak: Option<FailureStreak>,
}

/// A call that failed, and how often in a row.
#[verifier::ext_equal]
pub struct StreakModel {
    pub name: Seq<char>,
    pub input: Json,
    pub count: usize,
}

#[verifier::ext_equal]
pub struct GuardModel {
    pub streak: Option<StreakModel>,
}

impl GuardModel {
    pub open spec fn empty() -> GuardModel {
        GuardModel { streak: None }
    }

    /// How often this call has failed in a row.
    pub open spec fn failures(self, name: Seq<char>, input: Json) -> int {
        match self.streak {
            Some(streak) => if streak.name == name && streak.input == input {
                streak.count as int
            } else {
                0
            },
            None => 0,
        }
    }

    pub open spec fn blocks(self, name: Seq<char>, input: Json) -> bool {
        self.failures(name, input) >= REPEATED_FAILURE_LIMIT
    }

    /// One more failure of this call; the count does not go past what it can hold.
    pub open spec fn failed(self, name: Seq<char>, input: Json) -> GuardModel {
        let failures = self.failures(name, input);
        GuardModel {
            streak: Some(
                StreakModel {
                    name,
                    input,
                    count: if failures == usize::MAX {
                        usize::MAX
                    } else {
                        (failures + 1) as usize
                    },
                },
            ),
        }
    }

    /// Whether one more failure of this call is the one that the model is warned about.
    pub open spec fn warns(self, name: Seq<char>, input: Json) -> bool {
        self.failed(name, input).streak->0.count == REPEATED_FAILURE_LIMIT
    }
}

impl View for RepeatedFailureGuard {
    type V = GuardModel;

    closed spec fn view(&self) -> GuardModel {
        GuardModel {
            streak: match self.streak {
                Some(streak) => Some(
                    StreakModel {
                        name: streak.signature.name@,
                        input: json_model(streak.signature.input),
                        count: streak.count,
                    },
                ),
                None => None,
            },
        }
    }
}

impl ToolCallSignature {
    fn new(name: &str, input: &Value) -> (r: Self)
        ensures
            r.name@ == name@,
            r.input == *input,
    {
        ToolCallSignature { name: name.to_owned(), input: input.clone() }
    }

    fn matches(&self, name: &str, input: &Value) -> (r: bool)
        ensures
            r == (self.name@ == name@ && json_model(self.input) == json_model(*input)),
    {
        same_text(self.name.as_str(), name) && same_json(&self.input, input)
    }
}

impl Default for RepeatedFailureGuard {
    fn default() -> (r: Self)
        ensures
            r@ == GuardModel::empty(),
    {
        RepeatedFailureGuard { streak: None }
    }
}

impl RepeatedFailureGuard {
    /// Records a failure; tells whether the model is to be warned now.
    pub fn record_failure(&mut self, name: &str, input: &Value) -> (r: bool)
        ensures
            final(self)@ == old(self)@.failed(name@, json_model(*input)),
            r == old(self)@.warns(name@, json_model(*input)),
    {
        let count: usize = match &self.streak {
            Some(streak) => if streak.signature.matches(name, input) {
                streak.count.saturating_add(1)
            } else {
                1
            },
            None => 1,
        };
        self.streak = Some(FailureStreak { signature: ToolCallSignature::new(name, input), count });
        count == REPEATED_FAILURE_LIMIT
    }

    pub fn should_block(&self, name: &str, input: &Value) -> (r: bool)
        ensures
            r == self@.blocks(name@, json_model(*input)),
    {
        match &self.streak {
            Some(streak) => streak.count >= REPEATED_FAILURE_LIMIT && streak.signature.matches(
                name,
                input,
            ),
            None => false,
        }
    }

    pub fn reset(&mut self)
        ensures
            final(self)@ == GuardModel::empty(),
    {
        self.streak = None;
    }
}

/// The model is warned when a call fails for the second time in a row, not at the first
/// failure, and the third attempt is blocked. Member order in the input does not matter.
pub proof fn law_warns_at_second_failure_and_blocks_third(
    guard: GuardModel,
    name: Seq<char>,
    input: Json,
)
    requires
        guard.failures(name, input) == 0,
    ensures
        !guard.warns(name, input),
        !guard.failed(name, input).blocks(name, input),
        guard.failed(name, input).warns(name, input),
        guard.failed(name, input).failed(name, input).blocks(name, input),
{
}

/// A failure of another call ends the streak: the earlier call may be tried again, and
/// the other one has failed once.
pub proof fn law_another_failure_ends_the_streak(
    guard: GuardModel,
    name: Seq<char>,
    input: Json,
    other_name: Seq<char>,
    other_input: Json,
)
    requires
        name != other_name || input != other_input,
    ensures
        !guard.failed(other_name, other_input).blocks(name, input),
        guard.failures(other_name, other_input) == 0 ==> !guard.failed(
            other_name,
            other_input,
        ).blocks(other_name, other_input),
{
}

/// A call that keeps failing stays blocked.
pub proof fn law_blocked_calls_stay_blocked(guard: GuardModel, name: Seq<char>, input: Json)
    requires
        guard.blocks(name, input),
    ensures
        guard.failed(name, input).blocks(name, input),
        !guard.warns(name, input),
{
}

} // verus!
