//! Command parsing: each whitespace-delimited token of an input line
//! classifies, case-insensitively, as one action.

use vstd::prelude::*;
use crate::text::{lower_of, lowercase, tokenize, tokens_of};

verus! {

/// One classified input token: ask for help, quit the session, or describe
/// the thing the token names. `Describe` keeps the raw token as typed.
#[derive(Debug, Clone, PartialEq, Eq)]
pub enum Action {
    Help,
    Quit,
    Describe(String),
}

/// The mathematical form of an action: a described term is a character
/// sequence.
pub enum ActionSpec {
    Help,
    Quit,
    Describe(Seq<char>),
}

impl View for Action {
    type V = ActionSpec;

    open spec fn view(&self) -> ActionSpec {
        match self {
            Action::Help => ActionSpec::Help,
            Action::Quit => ActionSpec::Quit,
            Action::Describe(t) => ActionSpec::Describe(t@),
        }
    }
}

/// How one token classifies: `quit` and `help` are matched on the lowercase
/// form of the token; every other token asks to describe what it names.
pub open spec fn classify(t: Seq<char>) -> ActionSpec {
    if lower_of(t) == "quit"@ {
        ActionSpec::Quit
    } else if lower_of(t) == "help"@ {
        ActionSpec::Help
    } else {
        ActionSpec::Describe(t)
    }
}

/// The actions of a whole input line, one per token, in token order.
pub open spec fn actions_of(s: Seq<char>) -> Seq<ActionSpec> {
    tokens_of(s).map_values(|t: Seq<char>| classify(t))
}

/// Classification is case-insensitive: two tokens with the same lowercase
/// form classify as `Quit` together and as `Help` together.
pub proof fn lemma_classify_case_insensitive(t1: Seq<char>, t2: Seq<char>)
    requires
        lower_of(t1) == lower_of(t2),
    ensures
        classify(t1) is Quit <==> classify(t2) is Quit,
        classify(t1) is Help <==> classify(t2) is Help,
{
}

/// Classifies a single token.
pub fn classify_token(t: &String) -> (a: Action)
    ensures
        a@ == classify(t@),
{
    let low = lowercase(t.as_str());
    if low == String::from_str("quit") {
        Action::Quit
    } else if low == String::from_str("help") {
        Action::Help
    } else {
        Action::Describe(t.clone())
    }
}

impl Action {
    /// Turns one line of raw input into its ordered sequence of actions.
    /// No token is dropped, and classification never fails: an unrecognized
    /// token becomes `Describe`.
    pub fn parse(input: &str) -> (r: Vec<Action>)
        ensures
            r@.map_values(|a: Action| a@) == actions_of(input@),
    {
        let tokens = tokenize(input);
        let mut out: Vec<Action> = Vec::new();
        let mut i: usize = 0;
        while i < tokens.len()
            invariant
                i <= tokens.len(),
                tokens@.map_values(|t: String| t@) == tokens_of(input@),
                out@.len() == i,
                forall|k: int| 0 <= k < i ==> (#[trigger] out@[k])@ == classify(tokens@[k]@),
            decreases tokens.len() - i,
        {
            let a = classify_token(&tokens[i]);
            out.push(a);
            i = i + 1;
        }
        proof {
            assert(out@.map_values(|a: Action| a@) =~= actions_of(input@));
        }
        out
    }
}

} // verus!
