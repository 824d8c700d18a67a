//! The command line of the legacy BadJwt repair tool: its options, and which
//! of preview, confirm or rollback they ask for.
//!
//! Reading the arguments and `DATABASE_URL`, and printing, are the caller's.

use vstd::prelude::*;
use crate::chars::str_equal;
use crate::funnelcake::{parse_i64, parse_i64_spec};
use crate::legacy_repair::{LegacyBadJwtRepairFilter, BADJWT_SIGNATURE_ERROR};
use crate::profile_sync::opt_view;

verus! {

/// The options given to the repair tool.
#[derive(Debug, Clone, PartialEq, Eq)]
pub struct RepairArgs {
    pub actor: Option<String>,
    pub nostr_pubkey: Option<String>,
    pub event_ids: Vec<String>,
    pub exact_badjwt: bool,
    pub after_event_id: Option<String>,
    pub max_rows: i64,
    pub operation_id: Option<String>,
    pub confirm_digest: Option<String>,
    pub rollback_operation_id: Option<String>,
}

/// The options as texts.
pub struct RepairArgsView {
    pub actor: Option<Seq<char>>,
    pub nostr_pubkey: Option<Seq<char>>,
    pub event_ids: Seq<Seq<char>>,
    pub exact_badjwt: bool,
    pub after_event_id: Option<Seq<char>>,
    pub max_rows: i64,
    pub operation_id: Option<Seq<char>>,
    pub confirm_digest: Option<Seq<char>>,
    pub rollback_operation_id: Option<Seq<char>>,
}

/// The texts of a list of strings.
pub open spec fn texts(v: Seq<String>) -> Seq<Seq<char>> {
    Seq::new(v.len(), |i: int| v[i]@)
}

/// The view of parsed options.
pub open spec fn args_view(a: RepairArgs) -> RepairArgsView {
    RepairArgsView {
        actor: opt_view(a.actor),
        nostr_pubkey: opt_view(a.nostr_pubkey),
        event_ids: texts(a.event_ids@),
        exact_badjwt: a.exact_badjwt,
        after_event_id: opt_view(a.after_event_id),
        max_rows: a.max_rows,
        operation_id: opt_view(a.operation_id),
        confirm_digest: opt_view(a.confirm_digest),
        rollback_operation_id: opt_view(a.rollback_operation_id),
    }
}

/// No options: 100 rows, nothing else.
pub open spec fn default_args() -> RepairArgsView {
    RepairArgsView {
        actor: None,
        nostr_pubkey: None,
        event_ids: Seq::empty(),
        exact_badjwt: false,
        after_event_id: None,
        max_rows: 100,
        operation_id: None,
        confirm_digest: None,
        rollback_operation_id: None,
    }
}

/// Read the options from position `i` on, into `a`: `--exact-badjwt` stands
/// alone; every other option takes the next argument as its value; a later
/// value replaces an earlier one, and `--event-id` values accumulate.
pub open spec fn parse_from(raw: Seq<Seq<char>>, i: nat, a: RepairArgsView) -> Result<RepairArgsView, Seq<char>>
    decreases raw.len() - i,
{
    if i >= raw.len() {
        Ok(a)
    } else if raw[i as int] == "--exact-badjwt"@ {
        parse_from(raw, i + 1, RepairArgsView { exact_badjwt: true, ..a })
    } else if i + 1 >= raw.len() {
        Err("missing value for option"@)
    } else {
        let flag = raw[i as int];
        let v = raw[(i + 1) as int];
        if flag == "--actor"@ {
            parse_from(raw, i + 2, RepairArgsView { actor: Some(v), ..a })
        } else if flag == "--nostr-pubkey"@ {
            parse_from(raw, i + 2, RepairArgsView { nostr_pubkey: Some(v), ..a })
        } else if flag == "--event-id"@ {
            parse_from(raw, i + 2, RepairArgsView { event_ids: a.event_ids.push(v), ..a })
        } else if flag == "--after-event-id"@ {
            parse_from(raw, i + 2, RepairArgsView { after_event_id: Some(v), ..a })
        } else if flag == "--max-rows"@ {
            match parse_i64_spec(v) {
                Some(n) => parse_from(raw, i + 2, RepairArgsView { max_rows: n, ..a }),
                None => Err("--max-rows must be an integer"@),
            }
        } else if flag == "--operation-id"@ {
            parse_from(raw, i + 2, RepairArgsView { operation_id: Some(v), ..a })
        } else if flag == "--confirm-digest"@ {
            parse_from(raw, i + 2, RepairArgsView { confirm_digest: Some(v), ..a })
        } else if flag == "--rollback-operation-id"@ {
            parse_from(raw, i + 2, RepairArgsView { rollback_operation_id: Some(v), ..a })
        } else {
            Err("unknown option"@)
        }
    }
}

/// Parse the tool's arguments (without the program name).
pub fn parse_args(raw: &Vec<String>) -> (res: Result<RepairArgs, String>)
    ensures
        match res {
            Ok(a) => parse_from(texts(raw@), 0, default_args()) == Ok::<RepairArgsView, Seq<char>>(args_view(a)),
            Err(m) => parse_from(texts(raw@), 0, default_args()) == Err::<RepairArgsView, Seq<char>>(m@),
        },
{
    let ghost t = texts(raw@);
    let mut parsed = RepairArgs {
        actor: None,
        nostr_pubkey: None,
        event_ids: Vec::new(),
        exact_badjwt: false,
        after_event_id: None,
        max_rows: 100,
        operation_id: None,
        confirm_digest: None,
        rollback_operation_id: None,
    };
    assert(texts(parsed.event_ids@) =~= Seq::<Seq<char>>::empty());
    assert(args_view(parsed) == default_args());
    let mut index: usize = 0;
    while index < raw.len()
        invariant
            index <= raw@.len(),
            t == texts(raw@),
            parse_from(t, 0, default_args()) == parse_from(t, index as nat, args_view(parsed)),
        decreases raw.len() - index,
    {
        let flag = raw[index].as_str();
        assert(t[index as int] == flag@);
        if str_equal(flag, "--exact-badjwt") {
            let ghost before = args_view(parsed);
            parsed.exact_badjwt = true;
            assert(args_view(parsed) == (RepairArgsView { exact_badjwt: true, ..before }));
            index += 1;
        } else {
            if index + 1 >= raw.len() {
                return Err("missing value for option".to_string());
            }
            let value = raw[index + 1].clone();
            assert(t[index + 1] == value@);
            let ghost before = args_view(parsed);
            if str_equal(flag, "--actor") {
                parsed.actor = Some(value);
                assert(args_view(parsed) == (RepairArgsView { actor: Some(t[index + 1]), ..before }));
            } else if str_equal(flag, "--nostr-pubkey") {
                parsed.nostr_pubkey = Some(value);
                assert(args_view(parsed) == (RepairArgsView { nostr_pubkey: Some(t[index + 1]), ..before }));
            } else if str_equal(flag, "--event-id") {
                parsed.event_ids.push(value);
                assert(texts(parsed.event_ids@) =~= before.event_ids.push(t[index + 1]));
                assert(args_view(parsed) == (RepairArgsView {
                    event_ids: before.event_ids.push(t[index + 1]),
                    ..before
                }));
            } else if str_equal(flag, "--after-event-id") {
                parsed.after_event_id = Some(value);
                assert(args_view(parsed) == (RepairArgsView { after_event_id: Some(t[index + 1]), ..before }));
            } else if str_equal(flag, "--max-rows") {
                match parse_i64(value.as_str()) {
                    Some(n) => {
                        parsed.max_rows = n;
                        assert(args_view(parsed) == (RepairArgsView { max_rows: n, ..before }));
                    },
                    None => {
                        return Err("--max-rows must be an integer".to_string());
                    },
                }
            } else if str_equal(flag, "--operation-id") {
                parsed.operation_id = Some(value);
                assert(args_view(parsed) == (RepairArgsView { operation_id: Some(t[index + 1]), ..before }));
            } else if str_equal(flag, "--confirm-digest") {
                parsed.confirm_digest = Some(value);
                assert(args_view(parsed) == (RepairArgsView { confirm_digest: Some(t[index + 1]), ..before }));
            } else if str_equal(flag, "--rollback-operation-id") {
                parsed.rollback_operation_id = Some(value);
                assert(args_view(parsed) == (RepairArgsView {
                    rollback_operation_id: Some(t[index + 1]),
                    ..before
                }));
            } else {
                return Err("unknown option".to_string());
            }
            index += 2;
        }
    }
    Ok(parsed)
}

/// Whether the arguments ask for the usage text.
pub fn wants_help(raw: &Vec<String>) -> (b: bool)
    ensures
        b == exists|i: int| 0 <= i < raw@.len() && (raw@[i]@ == "--help"@ || raw@[i]@ == "-h"@),
{
    let mut i: usize = 0;
    while i < raw.len()
        invariant
            i <= raw@.len(),
            forall|j: int| 0 <= j < i ==> !(raw@[j]@ == "--help"@ || raw@[j]@ == "-h"@),
        decreases raw.len() - i,
    {
        if str_equal(raw[i].as_str(), "--help") || str_equal(raw[i].as_str(), "-h") {
            return true;
        }
        i += 1;
    }
    false
}

/// What the tool does.
#[derive(Debug, Clone, PartialEq, Eq)]
pub enum RepairCommand {
    Rollback { operation_id: String },
    Confirm { operation_id: String, digest: String },
    Preview { actor: String, filter: LegacyBadJwtRepairFilter },
}

/// The command the options name: a rollback alone; else a confirmation with
/// both its operation id and digest; else a preview, which needs the actor
/// and the account's pubkey (and asks for the exact BadJwt class when told).
pub fn repair_command(args: RepairArgs) -> (res: Result<RepairCommand, String>)
    ensures
        args.rollback_operation_id matches Some(r) ==> if args.operation_id is Some || args.confirm_digest is Some {
            res matches Err(m) && m@ == "rollback cannot be combined with confirmation"@
        } else {
            res == Ok::<RepairCommand, String>(RepairCommand::Rollback { operation_id: r })
        },
        args.rollback_operation_id is None ==> match (args.operation_id, args.confirm_digest) {
            (Some(o), Some(d)) => res == Ok::<RepairCommand, String>(
                RepairCommand::Confirm { operation_id: o, digest: d },
            ),
            (Some(_), None) => res matches Err(m) && m@ == "--operation-id and --confirm-digest must be supplied together"@,
            (None, Some(_)) => res matches Err(m) && m@ == "--operation-id and --confirm-digest must be supplied together"@,
            (None, None) => match (args.actor, args.nostr_pubkey) {
                (None, _) => res matches Err(m) && m@ == "--actor is required"@,
                (Some(_), None) => res matches Err(m) && m@ == "--nostr-pubkey is required"@,
                (Some(a), Some(p)) => res matches Ok(RepairCommand::Preview { actor, filter }) && actor == a
                    && filter.nostr_pubkey == p && filter.event_ids == args.event_ids && filter.after_event_id
                    == args.after_event_id && filter.limit == args.max_rows && (if args.exact_badjwt {
                    filter.exact_error matches Some(e) && e@ == BADJWT_SIGNATURE_ERROR@
                } else {
                    filter.exact_error is None
                }),
            },
        },
{
    if let Some(r) = args.rollback_operation_id {
        if args.operation_id.is_some() || args.confirm_digest.is_some() {
            return Err("rollback cannot be combined with confirmation".to_string());
        }
        return Ok(RepairCommand::Rollback { operation_id: r });
    }
    match (args.operation_id, args.confirm_digest) {
        (Some(o), Some(d)) => Ok(RepairCommand::Confirm { operation_id: o, digest: d }),
        (None, None) => {
            let actor = match args.actor {
                Some(a) => a,
                None => return Err("--actor is required".to_string()),
            };
            let nostr_pubkey = match args.nostr_pubkey {
                Some(p) => p,
                None => return Err("--nostr-pubkey is required".to_string()),
            };
            let exact_error = if args.exact_badjwt {
                Some(BADJWT_SIGNATURE_ERROR.to_string())
            } else {
                None
            };
            Ok(
                RepairCommand::Preview {
                    actor,
                    filter: LegacyBadJwtRepairFilter {
                        nostr_pubkey,
                        event_ids: args.event_ids,
                        exact_error,
                        after_event_id: args.after_event_id,
                        limit: args.max_rows,
                    },
                },
            )
        },
        _ => Err("--operation-id and --confirm-digest must be supplied together".to_string()),
    }
}

} // verus!
