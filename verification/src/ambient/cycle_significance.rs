//! Deciding whether a completed ambient cycle is worth a notification.
//!
//! Most cycles are garden maintenance. Pushing those to a phone trains the user
//! to ignore the channel, so the default is silence and a cycle must earn its
//! push.

use crate::text::{
    all_ascii, ascii_lower, ascii_upper, lowercased, lowering_keeps_spaces,
    lowering_undoes_raising, str_eq, to_lowercase, trim, trimmed, trimming_is_done_once,
};
use vstd::prelude::*;

verus! {

/// What a finished cycle claims about its own newsworthiness.
#[derive(Debug, Clone, Copy, PartialEq, Eq, Structural)]
pub enum CycleSignificance {
    /// Routine maintenance. No notification.
    Routine,
    /// Something the user would want to know.
    Notable,
    /// The agent did not say.
    Unspecified,
}

/// What a lowercase word without outer white space claims.
pub open spec fn word_claims(word: Seq<char>) -> CycleSignificance {
    if word == "routine"@ || word == "garden"@ || word == "maintenance"@ {
        CycleSignificance::Routine
    } else if word == "notable"@ || word == "significant"@ {
        CycleSignificance::Notable
    } else {
        CycleSignificance::Unspecified
    }
}

impl CycleSignificance {
    /// Reads a lowercase word without outer white space.
    pub fn of_word(word: &str) -> (r: CycleSignificance)
        ensures
            r == word_claims(word@),
    {
        if str_eq(word, "routine") || str_eq(word, "garden") || str_eq(word, "maintenance") {
            CycleSignificance::Routine
        } else if str_eq(word, "notable") || str_eq(word, "significant") {
            CycleSignificance::Notable
        } else {
            CycleSignificance::Unspecified
        }
    }

    /// Reads the agent's declared value. Letter case and outer white space do
    /// not matter; an unknown word claims nothing.
    pub fn parse(raw: Option<&str>) -> (r: CycleSignificance)
        ensures
            match raw {
                None => r == CycleSignificance::Unspecified,
                Some(s) => r == text_claims(s@) && r == word_claims(lowercased(trimmed(s@))) && (
                all_ascii(trimmed(s@)) ==> r == word_claims(ascii_lower(trimmed(s@)))),
            },
    {
        match raw {
            Some(s) => {
                let low = to_lowercase(trim(s));
                CycleSignificance::of_word(low.as_str())
            },
            None => CycleSignificance::Unspecified,
        }
    }
}

/// What a text claims: what its word claims, in lowercase and without the white
/// space around it.
pub open spec fn text_claims(s: Seq<char>) -> CycleSignificance {
    word_claims(lowercased(ascii_lower(trimmed(s))))
}

/// The case of ASCII letters and the white space around the word do not matter,
/// whatever else the text holds: texts that agree once both are gone claim the
/// same.
pub proof fn case_and_padding_do_not_matter(s: Seq<char>, t: Seq<char>)
    requires
        ascii_lower(trimmed(s)) == ascii_lower(trimmed(t)) || ascii_lower(s) == ascii_lower(t),
    ensures
        text_claims(s) == text_claims(t),
        text_claims(trimmed(s)) == text_claims(s),
        text_claims(ascii_upper(s)) == text_claims(s),
        text_claims(ascii_lower(s)) == text_claims(s),
{
    lowering_keeps_spaces(s);
    lowering_keeps_spaces(t);
    lowering_keeps_spaces(ascii_upper(s));
    lowering_keeps_spaces(ascii_lower(s));
    lowering_undoes_raising(s);
    assert(ascii_lower(ascii_lower(s)) =~= ascii_lower(s));
    trimming_is_done_once(s);
}

/// Three words claim that a cycle was routine, two that it was notable, and
/// every other text claims nothing.
pub proof fn only_the_known_words_claim(s: Seq<char>)
    ensures
        text_claims(s) is Routine <==> {
            ||| lowercased(ascii_lower(trimmed(s))) == "routine"@
            ||| lowercased(ascii_lower(trimmed(s))) == "garden"@
            ||| lowercased(ascii_lower(trimmed(s))) == "maintenance"@
        },
        text_claims(s) is Notable <==> {
            ||| lowercased(ascii_lower(trimmed(s))) == "notable"@
            ||| lowercased(ascii_lower(trimmed(s))) == "significant"@
        },
{
    reveal_strlit("routine");
    reveal_strlit("garden");
    reveal_strlit("maintenance");
    reveal_strlit("notable");
    reveal_strlit("significant");
    assert("routine"@[0] == 'r' && "garden"@[0] == 'g' && "maintenance"@[0] == 'm');
    assert("notable"@[0] == 'n' && "significant"@[0] == 's');
}

/// The facts a notification decision is made from.
#[derive(Debug, Clone, Copy)]
pub struct CycleOutcome {
    pub significance: CycleSignificance,
    /// Permission requests awaiting a human. Always notifies.
    pub pending_permissions: usize,
    /// The agent changed code, which is never routine.
    pub did_proactive_work: bool,
    /// The cycle did not finish cleanly.
    pub failed: bool,
}

/// The cycle notifies whatever it calls itself: it waits for a human, it
/// failed, or it changed code.
pub open spec fn must_notify(outcome: CycleOutcome) -> bool {
    outcome.pending_permissions > 0 || outcome.failed || outcome.did_proactive_work
}

/// Whether to send a notification for this cycle. A cycle cannot silence a
/// permission request, a failure or a code change by declaring itself routine;
/// apart from those only a notable cycle notifies.
pub fn should_notify(outcome: &CycleOutcome) -> (r: bool)
    ensures
        r == (must_notify(*outcome) || outcome.significance is Notable),
{
    if outcome.pending_permissions > 0 {
        return true;
    }
    if outcome.failed {
        return true;
    }
    if outcome.did_proactive_work {
        return true;
    }
    match outcome.significance {
        CycleSignificance::Routine => false,
        CycleSignificance::Notable => true,
        CycleSignificance::Unspecified => false,
    }
}

} // verus!
