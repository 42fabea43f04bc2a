use vstd::prelude::*;

use crate::dice::DiceRollRequest;
use crate::dice::DiceRollResult;
use crate::dice::format_roll_message;
use crate::dice::request_valid;
use crate::dice::roll;
use crate::dice::roll_message;
use crate::dice::roll_ok_post;
use crate::photo::extract_photo_url;
use crate::photo::photo_url_of;
use crate::photo::status_ok;
use crate::random::RandomSource;
use crate::registry::Command;
use crate::registry::CommandRegistry;
use crate::registry::Constraint;
use crate::registry::ParamValue;
use crate::registry::declared;
use crate::registry::find_param;
use crate::registry::lookup_spec;
use crate::registry::param_violates;
use crate::registry::params_valid;
use crate::registry::registry_wf;
use crate::registry::schema_entry_ok;
use crate::registry::validate_params;
use crate::text::join_dec_signed;
use crate::text::dec_seq_signed;
use crate::text::push_i64_dec;
use crate::text::push_join_i64;

verus! {

/// One request to execute a named command, as delivered by the platform.
pub struct Invocation {
    pub command: String,
    pub params: Vec<(String, ParamValue)>,
    pub invoker_name: String,
}

/// The single text response returned for one invocation.
#[derive(Debug)]
pub struct Reply {
    pub text: String,
}

/// A fault between the platform and the registry; never shown to the user.
#[derive(Clone, Copy, PartialEq, Eq, Structural, Debug)]
pub enum DispatchFault {
    UnknownCommand,
}

/// What one dispatch hop produced: a finished reply, or a photo lookup the
/// host must perform before the reply can be finished.
#[derive(Debug)]
pub enum DispatchStep {
    Done(Reply),
    AwaitPhoto(String),
}

/// The fixed greeting.
pub open spec fn greet_text() -> Seq<char> {
    "world!"@
}

/// The theme sent to the photo service.
pub open spec fn photo_query_text() -> Seq<char> {
    "frog"@
}

/// The generic reply when a photo lookup fails.
pub open spec fn photo_failure_text() -> Seq<char> {
    "Could not fetch a photo right now."@
}

/// The reply explaining a parameter violation.
pub open spec fn invalid_param_text(name: Seq<char>) -> Seq<char> {
    "Invalid parameter: "@ + name
}

/// The note appended for a violated constraint: the values it allows.
pub open spec fn constraint_note(c: Constraint) -> Seq<char> {
    match c {
        Constraint::Free => Seq::empty(),
        Constraint::Range(lo, hi) => " (allowed: "@ + dec_seq_signed(lo as int) + " to "@
            + dec_seq_signed(hi as int) + ")"@,
        Constraint::OneOf(vals) => " (allowed: "@ + join_dec_signed(vals@) + ")"@,
    }
}

/// The reply explaining a violated declared parameter: its name, and the
/// values its constraint allows.
pub open spec fn invalid_param_text_with(name: Seq<char>, c: Constraint) -> Seq<char> {
    invalid_param_text(name) + constraint_note(c)
}

/// Appends the allowed values of `c` to `s`.
fn push_constraint_note(s: &mut String, c: &Constraint)
    ensures
        final(s)@ == old(s)@ + constraint_note(*c),
{
    match c {
        Constraint::Free => {
            proof {
                assert(old(s)@ + constraint_note(*c) =~= old(s)@);
            }
        },
        Constraint::Range(lo, hi) => {
            s.append(" (allowed: ");
            push_i64_dec(s, *lo);
            s.append(" to ");
            push_i64_dec(s, *hi);
            s.append(")");
            proof {
                assert(s@ =~= old(s)@ + constraint_note(*c));
            }
        },
        Constraint::OneOf(vals) => {
            s.append(" (allowed: ");
            push_join_i64(s, vals);
            s.append(")");
            proof {
                assert(s@ =~= old(s)@ + constraint_note(*c));
            }
        },
    }
}

/// The command names the registry knows.
pub open spec fn known_command(name: Seq<char>) -> bool {
    name == "greet"@ || name == "roll"@ || name == "photo"@
}

/// The schema registered for a known command name.
pub open spec fn command_schema(reg: CommandRegistry, name: Seq<char>) -> Seq<
    crate::registry::ParamSpec,
> {
    if name == "greet"@ {
        reg.entries@[0].schema@
    } else if name == "roll"@ {
        reg.entries@[1].schema@
    } else {
        reg.entries@[2].schema@
    }
}

/// The dice request a valid parameter list denotes.
pub open spec fn roll_request_of(ps: Seq<(String, ParamValue)>) -> DiceRollRequest {
    DiceRollRequest {
        sides: find_param(ps, "sides"@)->Some_0->Int_0 as u32,
        count: find_param(ps, "count"@)->Some_0->Int_0 as u32,
        modifier: find_param(ps, "modifier"@)->Some_0->Int_0 as i32,
    }
}

/// In a well-formed registry, a name resolves to its row, and only the
/// three registered names resolve at all.
proof fn lemma_lookup_wf(reg: CommandRegistry, name: Seq<char>)
    requires
        registry_wf(reg),
    ensures
        known_command(name) <==> lookup_spec(reg.entries@, name) is Some,
        name == "greet"@ ==> lookup_spec(reg.entries@, name) == Some(reg.entries@[0]),
        name == "roll"@ ==> lookup_spec(reg.entries@, name) == Some(reg.entries@[1]),
        name == "photo"@ ==> lookup_spec(reg.entries@, name) == Some(reg.entries@[2]),
{
    reveal_strlit("greet");
    reveal_strlit("roll");
    reveal_strlit("photo");
    assert("greet"@.len() == 5 && "roll"@.len() == 4 && "photo"@.len() == 5);
    assert("greet"@[0] == 'g' && "photo"@[0] == 'p');
    assert("greet"@ != "roll"@ && "roll"@ != "photo"@ && "greet"@ != "photo"@);
    let e = reg.entries@;
    let e1 = e.drop_first();
    let e2 = e1.drop_first();
    let e3 = e2.drop_first();
    assert(e1[0] == e[1]);
    assert(e2[0] == e[2]);
    assert(e1.len() == 2 && e2.len() == 1 && e3.len() == 0);
    assert(lookup_spec(e3, name) is None);
    if name == "greet"@ {
        assert(lookup_spec(e, name) == Some(e[0]));
    } else {
        assert(lookup_spec(e, name) == lookup_spec(e1, name));
        if name == "roll"@ {
            assert(lookup_spec(e1, name) == Some(e[1]));
        } else {
            assert(lookup_spec(e1, name) == lookup_spec(e2, name));
            if name == "photo"@ {
                assert(lookup_spec(e2, name) == Some(e[2]));
            } else {
                assert(lookup_spec(e2, name) == lookup_spec(e3, name));
            }
        }
    }
}

/// Executes one invocation against the registry: looks the command up,
/// validates the parameters, and runs the handler.
///
/// An unknown command is a fault, not a user-facing reply. A parameter
/// violation produces an explanatory reply and never runs a handler, nor
/// draws a die. A valid greet or roll finishes in one hop; a valid photo
/// command hands back the query the host must fetch.
pub fn dispatch(reg: &CommandRegistry, inv: &Invocation, rng: &mut RandomSource) -> (r: Result<
    DispatchStep,
    DispatchFault,
>)
    requires
        registry_wf(*reg),
    ensures
        !known_command(inv.command@) <==> r is Err && r->Err_0 == DispatchFault::UnknownCommand,
        r is Err ==> *final(rng) == *old(rng),
        known_command(inv.command@) && !params_valid(
            command_schema(*reg, inv.command@),
            inv.params@,
        ) ==> r is Ok && r->Ok_0 is Done && *final(rng) == *old(rng) && ((exists|ix: int|
            0 <= ix < command_schema(*reg, inv.command@).len() && !(#[trigger] schema_entry_ok(
                command_schema(*reg, inv.command@),
                inv.params@,
                ix,
            )) && r->Ok_0->Done_0.text@ == invalid_param_text_with(
                command_schema(*reg, inv.command@)[ix].name@,
                command_schema(*reg, inv.command@)[ix].constraint,
            )) || (exists|nm: Seq<char>|
            !declared(command_schema(*reg, inv.command@), nm) && (exists|k: int|
                0 <= k < inv.params@.len() && (#[trigger] inv.params@[k]).0@ == nm)
                && r->Ok_0->Done_0.text@ == #[trigger] invalid_param_text(nm))),
        inv.command@ == "greet"@ && params_valid(command_schema(*reg, inv.command@), inv.params@)
            ==> r is Ok && r->Ok_0 is Done && r->Ok_0->Done_0.text@ == greet_text() && *final(rng)
            == *old(rng),
        inv.command@ == "photo"@ && params_valid(command_schema(*reg, inv.command@), inv.params@)
            ==> r is Ok && r->Ok_0 is AwaitPhoto && r->Ok_0->AwaitPhoto_0@ == photo_query_text()
            && *final(rng) == *old(rng),
        inv.command@ == "roll"@ && params_valid(command_schema(*reg, inv.command@), inv.params@)
            ==> r is Ok && r->Ok_0 is Done && (exists|res: DiceRollResult|
            #[trigger] roll_ok_post(*old(rng), *final(rng), roll_request_of(inv.params@), res)
                && r->Ok_0->Done_0.text@ == roll_message(
                inv.invoker_name@,
                roll_request_of(inv.params@),
                res.rolls@,
                res.total,
            )),
{
    proof {
        lemma_lookup_wf(*reg, inv.command@);
    }
    let entry = match reg.lookup(inv.command.as_str()) {
        Some(e) => e,
        None => {
            return Err(DispatchFault::UnknownCommand);
        },
    };
    proof {
        reveal_strlit("greet");
        reveal_strlit("roll");
        reveal_strlit("photo");
        assert(command_schema(*reg, inv.command@) == entry.schema@);
    }
    match validate_params(&entry.schema, &inv.params) {
        Err(verr) => {
            let mut t = String::from_str("Invalid parameter: ");
            t.append(verr.param.as_str());
            proof {
                assert(t@ == invalid_param_text(verr.param@));
            }
            match verr.schema_index {
                Some(ix) => {
                    push_constraint_note(&mut t, &entry.schema[ix].constraint);
                    proof {
                        assert(!schema_entry_ok(entry.schema@, inv.params@, ix as int));
                        assert(t@ == invalid_param_text_with(
                            entry.schema@[ix as int].name@,
                            entry.schema@[ix as int].constraint,
                        ));
                    }
                },
                None => {
                    proof {
                        assert(param_violates(entry.schema@, inv.params@, verr.param@));
                        assert(exists|k: int|
                            0 <= k < inv.params@.len() && (#[trigger] inv.params@[k]).0@
                                == verr.param@);
                    }
                },
            }
            Ok(DispatchStep::Done(Reply { text: t }))
        },
        Ok(()) => {
            match entry.command {
                Command::Greet => Ok(
                    DispatchStep::Done(Reply { text: String::from_str("world!") }),
                ),
                Command::Photo => Ok(DispatchStep::AwaitPhoto(String::from_str("frog"))),
                Command::Roll => {
                    proof {
                        assert(inv.command@ == "roll"@);
                        assert(schema_entry_ok(entry.schema@, inv.params@, 0));
                        assert(schema_entry_ok(entry.schema@, inv.params@, 1));
                        assert(schema_entry_ok(entry.schema@, inv.params@, 2));
                    }
                    let sides_i = match crate::registry::find_param_index(&inv.params, "sides") {
                        Some(ix) => ix,
                        None => 0,
                    };
                    let count_i = match crate::registry::find_param_index(&inv.params, "count") {
                        Some(ix) => ix,
                        None => 0,
                    };
                    let mod_i = match crate::registry::find_param_index(&inv.params, "modifier") {
                        Some(ix) => ix,
                        None => 0,
                    };
                    let sides_v: i64 = match &inv.params[sides_i].1 {
                        ParamValue::Int(v) => *v,
                        ParamValue::Text(_) => 0,
                    };
                    let count_v: i64 = match &inv.params[count_i].1 {
                        ParamValue::Int(v) => *v,
                        ParamValue::Text(_) => 0,
                    };
                    let mod_v: i64 = match &inv.params[mod_i].1 {
                        ParamValue::Int(v) => *v,
                        ParamValue::Text(_) => 0,
                    };
                    proof {
                        assert(4 <= sides_v <= 100);
                        assert(1 <= count_v <= 100);
                        assert(-2147483648 <= mod_v <= 2147483647);
                    }
                    let req = DiceRollRequest {
                        sides: sides_v as u32,
                        count: count_v as u32,
                        modifier: mod_v as i32,
                    };
                    proof {
                        assert(req == roll_request_of(inv.params@));
                        assert(request_valid(req));
                    }
                    match roll(&req, rng) {
                        Ok(res) => {
                            let text = format_roll_message(inv.invoker_name.as_str(), &req, &res);
                            Ok(DispatchStep::Done(Reply { text }))
                        },
                        // Unreachable: a validated request is always accepted.
                        Err(_) => Ok(DispatchStep::Done(Reply { text: String::new() })),
                    }
                },
            }
        },
    }
}

/// Finishes the photo command from the host's transport outcome: the
/// extracted URL on success, the generic failure text otherwise.
pub fn finish_photo(status: u16, body: &str) -> (r: Reply)
    ensures
        status_ok(status) && photo_url_of(body@) is Some ==> r.text@ == photo_url_of(
            body@,
        )->Some_0,
        !(status_ok(status) && photo_url_of(body@) is Some) ==> r.text@ == photo_failure_text(),
{
    match extract_photo_url(status, body) {
        Ok(p) => Reply { text: p.url },
        Err(_) => Reply { text: String::from_str("Could not fetch a photo right now.") },
    }
}

} // verus!
