//! The bridge between the chat session and the dice engine: it resolves
//! the dice kind from a request's textual hint, rolls, renders a summary
//! line, and appends that line to the session's history in the
//! requester's name. The summary reflects exactly the result that is
//! returned; nothing is re-rolled between computing and logging.

use vstd::prelude::*;
use crate::chat::{join_one, Chat, Message};
use crate::dice::{
    faced_shape, fate_shape, spec_range_of, spec_times_of, DiceKind, Roll, RollResult,
};
use crate::text::{
    eq_ignore_ascii_case, i32_to_string, int_str, is_trimmed, lemma_trimmed_fixed, spec_trim,
    str_ieq, trim_str,
};

verus! {

/// One roll request from a chat user: the dice kind as a textual hint,
/// the optional shape parameters, and an optional title and description
/// that are carried through but not interpreted.
#[derive(Debug)]
pub struct RollRequest {
    pub title: Option<String>,
    pub description: Option<String>,
    pub dice: Option<String>,
    pub times: Option<i32>,
    pub range: Option<i32>,
    pub username: Option<String>,
}

/// The failure modes of a chat roll.
#[derive(Debug, Clone, Copy, PartialEq, Eq, Structural)]
pub enum RollError {
    InvalidRollParameters,
    UnrecognizedDiceKind,
}

/// The dice kind a textual hint names, once trimmed and compared up to
/// ASCII case: `fate`, `faced`, or nothing recognizable.
pub open spec fn spec_hint_kind(hint: Seq<char>) -> Option<DiceKind> {
    if eq_ignore_ascii_case(spec_trim(hint), "fate"@) {
        Option::Some(DiceKind::Fate)
    } else if eq_ignore_ascii_case(spec_trim(hint), "faced"@) {
        Option::Some(DiceKind::Faced)
    } else {
        Option::None
    }
}

/// How a request's optional hint resolves: an absent hint defaults to
/// Fate; a present but unrecognized one is an error.
pub open spec fn spec_dice_of(hint: Option<String>) -> Result<DiceKind, RollError> {
    match hint {
        Option::None => Result::Ok(DiceKind::Fate),
        Option::Some(h) => match spec_hint_kind(h@) {
            Option::Some(k) => Result::Ok(k),
            Option::None => Result::Err(RollError::UnrecognizedDiceKind),
        },
    }
}

/// The name a request rolls under: its username, or `Anonymous`.
pub open spec fn spec_username_of(username: Option<String>) -> Seq<char> {
    match username {
        Option::Some(u) => u@,
        Option::None => "Anonymous"@,
    }
}

/// Resolves the dice kind from the request's hint.
pub fn get_dice(cx: &RollRequest) -> (r: Result<DiceKind, RollError>)
    ensures
        r == spec_dice_of(cx.dice),
{
    match &cx.dice {
        Some(dice_str) => {
            let t = trim_str(dice_str.as_str());
            if str_ieq(t.as_str(), "fate") {
                Ok(DiceKind::Fate)
            } else if str_ieq(t.as_str(), "faced") {
                Ok(DiceKind::Faced)
            } else {
                Err(RollError::UnrecognizedDiceKind)
            }
        },
        None => Ok(DiceKind::Fate),
    }
}

/// The rolled values rendered one after the other, comma-separated.
pub open spec fn render_values(vs: Seq<int>) -> Seq<char>
    decreases vs.len(),
{
    if vs.len() == 0 {
        Seq::empty()
    } else if vs.len() == 1 {
        int_str(vs[0])
    } else {
        int_str(vs[0]) + ", "@ + render_values(vs.drop_first())
    }
}

/// A result rendered as its bracketed list of values.
pub open spec fn render_result(r: RollResult) -> Seq<char> {
    "["@ + render_values(r.spec_values()) + "]"@
}

/// The summary line a roll leaves in the history.
pub open spec fn summary_text(name: Seq<char>, r: RollResult) -> Seq<char> {
    "User: "@ + name + " rolled: "@ + render_result(r)
}

fn render_values_from(rolls: &Vec<Roll>, i: usize) -> (s: String)
    requires
        i <= rolls.len(),
    ensures
        s@ == render_values(rolls@.map_values(|x: Roll| x.0 as int).skip(i as int)),
    decreases rolls.len() - i,
{
    let ghost vs = rolls@.map_values(|x: Roll| x.0 as int);
    if i == rolls.len() {
        proof {
            assert(vs.skip(i as int) =~= Seq::<int>::empty());
        }
        String::new()
    } else if i + 1 == rolls.len() {
        let s = i32_to_string(rolls[i].0);
        proof {
            assert(vs.skip(i as int) =~= seq![vs[i as int]]);
        }
        s
    } else {
        let mut s = i32_to_string(rolls[i].0);
        s.append(", ");
        let rest = render_values_from(rolls, i + 1);
        s.append(rest.as_str());
        proof {
            let tail = vs.skip(i as int);
            assert(tail.drop_first() =~= vs.skip(i as int + 1));
            assert(tail[0] == vs[i as int]);
            assert(s@ =~= render_values(tail));
        }
        s
    }
}

/// Renders a result as its bracketed list of values.
pub fn render_result_str(r: &RollResult) -> (s: String)
    ensures
        s@ == render_result(*r),
{
    let rolls = r.values();
    let mut s = String::new();
    s.append("[");
    let body = render_values_from(rolls, 0);
    s.append(body.as_str());
    s.append("]");
    proof {
        assert(rolls@.map_values(|x: Roll| x.0 as int).skip(0) =~= r.spec_values());
        assert(s@ =~= render_result(*r));
    }
    s
}

/// Resolves a roll on behalf of a chat user and logs it: the hint picks
/// the dice kind (absent defaults to Fate), a faced roll must resolve to
/// a positive range, and on success exactly one summary message carrying
/// the returned result is appended under the requester's trimmed name
/// (`Anonymous` when absent), joining the requester first if needed. On
/// an error the session is untouched.
pub fn chat_roll(request: &RollRequest, chat: &mut Chat) -> (r: Result<(RollResult, Message), RollError>)
    requires
        old(chat).wf(),
    ensures
        final(chat).wf(),
        old(chat).spec_messages().is_prefix_of(final(chat).spec_messages()),
        ({
            let kind = spec_dice_of(request.dice);
            let name = spec_trim(spec_username_of(request.username));
            if kind is Err {
                &&& r == Result::<(RollResult, Message), RollError>::Err(
                    RollError::UnrecognizedDiceKind,
                )
                &&& *final(chat) == *old(chat)
            } else if kind == Result::<DiceKind, RollError>::Ok(DiceKind::Faced) && spec_range_of(
                request.range,
            ) < 1 {
                &&& r == Result::<(RollResult, Message), RollError>::Err(
                    RollError::InvalidRollParameters,
                )
                &&& *final(chat) == *old(chat)
            } else {
                &&& r is Ok
                &&& (kind == Result::<DiceKind, RollError>::Ok(DiceKind::Fate) ==> fate_shape(
                    r->Ok_0.0,
                ))
                &&& (kind == Result::<DiceKind, RollError>::Ok(DiceKind::Faced) ==> faced_shape(
                    r->Ok_0.0,
                    spec_range_of(request.range),
                    spec_times_of(request.times),
                ))
                &&& final(chat).spec_users() == join_one(old(chat).spec_users(), name)
                &&& final(chat).spec_messages() == old(chat).spec_messages().push(r->Ok_0.1)
                &&& r->Ok_0.1.spec_author() == name
                &&& r->Ok_0.1.spec_text() == summary_text(name, r->Ok_0.0)
                &&& r->Ok_0.1.spec_clock().wf()
            }
        }),
{
    let dice_kind = match get_dice(request) {
        Ok(k) => k,
        Err(e) => {
            return Err(e);
        },
    };
    let range = match request.range {
        Some(x) => x,
        None => 20,
    };
    let times = request.times;
    if dice_kind == DiceKind::Faced && range < 1 {
        return Err(RollError::InvalidRollParameters);
    }
    let result = if dice_kind == DiceKind::Fate {
        Roll::new().roll(DiceKind::Fate, None, None)
    } else {
        Roll::new().roll(DiceKind::Faced, Some(range), times)
    };
    let raw_name: &str = match &request.username {
        Some(u) => u.as_str(),
        None => "Anonymous",
    };
    let name = trim_str(raw_name);
    let mut output = String::new();
    output.append("User: ");
    output.append(name.as_str());
    output.append(" rolled: ");
    let rendered = render_result_str(&result);
    output.append(rendered.as_str());
    proof {
        assert(output@ =~= summary_text(name@, result));
        reveal_strlit("User: ");
        assert(!crate::text::is_space_char(output@[0]));
        reveal_strlit("]");
        assert(output@.last() == ']');
        assert(is_trimmed(output@));
        lemma_trimmed_fixed(output@);
        lemma_trimmed_fixed(name@);
    }
    let m = crate::chat::send_message_helper(name.as_str(), output.as_str(), chat);
    Ok((result, m))
}

} // verus!
