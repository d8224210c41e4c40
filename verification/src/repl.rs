//! One step of the read-eval-print loop: the pure part that maps an input
//! line, against a fixed current scene, to the output block and the
//! termination decision. Reading and printing stay with the caller.

use vstd::prelude::*;
use crate::actions::{Action, ActionSpec, actions_of, classify};
use crate::story::Scene;
use crate::text::tokens_of;

verus! {

/// The fixed reply to `Help`.
pub open spec fn help_text() -> Seq<char> {
    "Try typing any of the highlighted words"@
}

/// The fixed reply to `Quit`.
pub open spec fn quit_text() -> Seq<char> {
    "Goodbye!"@
}

/// The line of output one action resolves to against `scene`.
pub open spec fn respond_spec(scene: Scene, a: ActionSpec) -> Seq<char> {
    match a {
        ActionSpec::Help => help_text(),
        ActionSpec::Quit => quit_text(),
        ActionSpec::Describe(t) => scene.describe_spec(t),
    }
}

/// The output lines of a whole input line: one per token, in token order,
/// each resolved against the same scene.
pub open spec fn responses_spec(scene: Scene, line: Seq<char>) -> Seq<Seq<char>> {
    tokens_of(line).map_values(|t: Seq<char>| respond_spec(scene, classify(t)))
}

/// Lines joined with single newline separators; no separator leads, trails,
/// or stands in an empty block.
pub open spec fn joined(lines: Seq<Seq<char>>) -> Seq<char>
    decreases lines.len(),
{
    if lines.len() == 0 {
        Seq::empty()
    } else if lines.len() == 1 {
        lines[0]
    } else {
        lines[0] + seq!['\n'] + joined(lines.drop_first())
    }
}

/// Whether some token of the line classifies as `Quit`, which ends the loop
/// after the whole line is answered.
pub open spec fn line_quits(line: Seq<char>) -> bool {
    exists|i: int|
        0 <= i < tokens_of(line).len() && classify(#[trigger] tokens_of(line)[i])
            is Quit
}

/// Every token of an input line yields exactly one output line: tokenization
/// and response are total and lossless in count.
pub proof fn lemma_one_response_per_token(scene: Scene, line: Seq<char>)
    ensures
        responses_spec(scene, line).len() == tokens_of(line).len(),
{
}

/// Appending one line to a joined block appends a separator (when the block
/// was non-empty) and the line.
proof fn lemma_joined_push(lines: Seq<Seq<char>>, last: Seq<char>)
    ensures
        lines.len() == 0 ==> joined(lines.push(last)) == last,
        lines.len() > 0 ==> joined(lines.push(last)) == joined(lines) + seq!['\n'] + last,
    decreases lines.len(),
{
    if lines.len() == 0 {
        assert(lines.push(last)[0] == last);
    } else {
        lemma_joined_push(lines.drop_first(), last);
        assert(lines.push(last).drop_first() =~= lines.drop_first().push(last));
        if lines.len() == 1 {
            assert(joined(lines) == lines[0]);
        }
    }
}

/// The prompt shown before each input line: the scene's name followed by
/// `>`, with no trailing space.
pub fn prompt_text(scene: &Scene) -> (r: String)
    ensures
        r@ == scene.name@ + ">"@,
{
    let mut p = scene.name.clone();
    p.append(">");
    p
}

/// Resolves one action against `scene` into one line of output.
pub fn respond(scene: &Scene, action: &Action) -> (r: String)
    ensures
        r@ == respond_spec(*scene, action@),
{
    match action {
        Action::Help => String::from_str("Try typing any of the highlighted words"),
        Action::Quit => String::from_str("Goodbye!"),
        Action::Describe(t) => {
            let d = scene.describe(t.clone());
            d.to_owned()
        },
    }
}

/// Runs one full loop iteration's computation: parses the line, resolves
/// every action, in order, against the same `scene`, and joins the resulting
/// lines with newlines. The second component reports whether some token of
/// the line asked to quit; every action of the line is still answered.
pub fn process_line(scene: &Scene, line: &str) -> (r: (String, bool))
    ensures
        r.0@ == joined(responses_spec(*scene, line@)),
        r.1 == line_quits(line@),
{
    let actions = Action::parse(line);
    let mut out = String::new();
    let mut quits = false;
    let mut i: usize = 0;
    proof {
        assert(actions@.map_values(|a: Action| a@).len() == actions@.len());
        assert(actions_of(line@).len() == tokens_of(line@).len());
    }
    while i < actions.len()
        invariant
            i <= actions@.len(),
            actions@.len() == tokens_of(line@).len(),
            actions@.map_values(|a: Action| a@) == actions_of(line@),
            out@ == joined(responses_spec(*scene, line@).take(i as int)),
            quits == exists|k: int|
                0 <= k < i && classify(#[trigger] tokens_of(line@)[k]) is Quit,
        decreases actions@.len() - i,
    {
        let ghost resp = responses_spec(*scene, line@);
        let r = respond(scene, &actions[i]);
        proof {
            reveal_strlit("\n");
            lemma_one_response_per_token(*scene, line@);
            assert(actions@.map_values(|a: Action| a@)[i as int] == actions@[i as int]@);
            assert(actions_of(line@) == tokens_of(line@).map_values(|t: Seq<char>| classify(t)));
            assert(tokens_of(line@).map_values(|t: Seq<char>| classify(t))[i as int] == classify(
                tokens_of(line@)[i as int],
            ));
            assert(resp == tokens_of(line@).map_values(
                |t: Seq<char>| respond_spec(*scene, classify(t)),
            ));
            assert(tokens_of(line@).map_values(|t: Seq<char>| respond_spec(*scene, classify(t)))[
                i as int] == respond_spec(*scene, classify(tokens_of(line@)[i as int])));
            assert(resp[i as int] == respond_spec(*scene, actions@[i as int]@));
            assert(resp.take(i + 1) =~= resp.take(i as int).push(resp[i as int]));
            lemma_joined_push(resp.take(i as int), resp[i as int]);
            assert("\n"@ =~= seq!['\n']);
        }
        if i > 0 {
            out.append("\n");
        } else {
            proof {
                assert(Seq::<char>::empty() + r@ =~= r@);
            }
        }
        out.append(r.as_str());
        let is_quit = match &actions[i] {
            Action::Quit => true,
            _ => false,
        };
        if is_quit {
            quits = true;
        }
        proof {
            if actions@[i as int]@ is Quit {
                assert(classify(tokens_of(line@)[i as int]) is Quit);
            }
        }
        i = i + 1;
    }
    proof {
        lemma_one_response_per_token(*scene, line@);
        assert(responses_spec(*scene, line@).take(i as int) =~= responses_spec(*scene, line@));
        if line_quits(line@) {
            let k = choose|k: int|
                0 <= k < tokens_of(line@).len() && classify(#[trigger] tokens_of(line@)[k])
                    is Quit;
            assert(0 <= k < i);
        }
    }
    (out, quits)
}

} // verus!
