//! NATS subject routing and construction.

use vstd::prelude::*;
use vstd::string::*;

verus! {

/// The subject on which a device publishes telemetry: `devices.<id>.telemetry`.
pub open spec fn spec_device_telemetry(device_id: Seq<char>) -> Seq<char> {
    "devices."@ + device_id + ".telemetry"@
}

/// The subject on which a device publishes its status: `devices.<id>.status`.
pub open spec fn spec_device_status(device_id: Seq<char>) -> Seq<char> {
    "devices."@ + device_id + ".status"@
}

/// The subject on which a device receives commands: `devices.<id>.command`.
pub open spec fn spec_device_command(device_id: Seq<char>) -> Seq<char> {
    "devices."@ + device_id + ".command"@
}

/// The subject on which the agent receives backend commands: `backend.command.<id>`.
pub open spec fn spec_backend_command(device_id: Seq<char>) -> Seq<char> {
    "backend.command."@ + device_id
}

/// Construct device telemetry subject.
pub fn device_telemetry(device_id: &str) -> (subject: String)
    ensures
        subject@ == spec_device_telemetry(device_id@),
{
    String::from_str("devices.").concat(device_id).concat(".telemetry")
}

/// Construct device status subject.
pub fn device_status(device_id: &str) -> (subject: String)
    ensures
        subject@ == spec_device_status(device_id@),
{
    String::from_str("devices.").concat(device_id).concat(".status")
}

/// Construct device command subject (for device to subscribe).
pub fn device_command(device_id: &str) -> (subject: String)
    ensures
        subject@ == spec_device_command(device_id@),
{
    String::from_str("devices.").concat(device_id).concat(".command")
}

/// Construct backend command subject (for agent to subscribe).
pub fn backend_command(device_id: &str) -> (subject: String)
    ensures
        subject@ == spec_backend_command(device_id@),
{
    String::from_str("backend.command.").concat(device_id)
}

/// Backend telemetry aggregation subject.
pub fn backend_telemetry() -> (subject: &'static str)
    ensures
        subject@ == "backend.telemetry"@,
{
    "backend.telemetry"
}

/// Wildcard pattern for all device telemetry.
pub fn all_device_telemetry() -> (subject: &'static str)
    ensures
        subject@ == "devices.*.telemetry"@,
{
    "devices.*.telemetry"
}

/// Wildcard pattern for all backend commands.
pub fn all_backend_commands() -> (subject: &'static str)
    ensures
        subject@ == "backend.command.*"@,
{
    "backend.command.*"
}

/// The `.`-separated tokens of a subject (`"a.b"` has tokens `a` and `b`;
/// an empty subject has one empty token).
pub open spec fn spec_tokens(s: Seq<char>) -> Seq<Seq<char>>
    decreases s.len(),
{
    if s.len() == 0 {
        seq![Seq::<char>::empty()]
    } else {
        let rest = spec_tokens(s.drop_first());
        if s[0] == '.' {
            seq![Seq::<char>::empty()] + rest
        } else {
            rest.update(0, seq![s[0]] + rest[0])
        }
    }
}

/// NATS subject matching with single-token wildcards: `subject` has as many
/// tokens as `pattern`, and each pattern token is `*` (matching any
/// non-empty token) or equal to the subject's token.
pub open spec fn spec_subject_matches(pattern: Seq<char>, subject: Seq<char>) -> bool {
    let p = spec_tokens(pattern);
    let t = spec_tokens(subject);
    &&& p.len() == t.len()
    &&& forall|i: int|
        0 <= i < p.len() ==> (#[trigger] p[i] == "*"@ && t[i].len() > 0) || p[i] == t[i]
}

/// A text that holds no `.`, usable as one token.
pub open spec fn spec_is_token(s: Seq<char>) -> bool {
    forall|i: int| 0 <= i < s.len() ==> #[trigger] s[i] != '.'
}

/// A subject has at least one token.
pub proof fn lemma_tokens_nonempty(s: Seq<char>)
    ensures
        spec_tokens(s).len() >= 1,
    decreases s.len(),
{
    if s.len() > 0 {
        lemma_tokens_nonempty(s.drop_first());
    }
}

/// A text without `.` is a single token.
pub proof fn lemma_tokens_of_token(s: Seq<char>)
    requires
        spec_is_token(s),
    ensures
        spec_tokens(s) == seq![s],
    decreases s.len(),
{
    if s.len() > 0 {
        let r = s.drop_first();
        assert(spec_is_token(r)) by {
            assert forall|i: int| 0 <= i < r.len() implies #[trigger] r[i] != '.' by {
                assert(r[i] == s[i + 1]);
            }
        }
        lemma_tokens_of_token(r);
        assert(seq![s[0]] + r =~= s);
        assert(spec_tokens(s) =~= seq![s]);
    } else {
        assert(s =~= Seq::<char>::empty());
        assert(spec_tokens(s) =~= seq![s]);
    }
}

/// The tokens of `x + y`: the last token of `x` joins the first of `y`.
pub proof fn lemma_tokens_concat(x: Seq<char>, y: Seq<char>)
    ensures
        spec_tokens(x + y) == spec_tokens(x).drop_last() + seq![
            spec_tokens(x).last() + spec_tokens(y)[0],
        ] + spec_tokens(y).drop_first(),
    decreases x.len(),
{
    lemma_tokens_nonempty(y);
    if x.len() == 0 {
        assert(x + y =~= y);
        assert(seq![Seq::<char>::empty()].last() + spec_tokens(y)[0] =~= spec_tokens(y)[0]);
        assert(spec_tokens(y) =~= seq![spec_tokens(y)[0]] + spec_tokens(y).drop_first());
        assert(spec_tokens(x + y) =~= spec_tokens(x).drop_last() + seq![
            spec_tokens(x).last() + spec_tokens(y)[0],
        ] + spec_tokens(y).drop_first());
    } else {
        let x1 = x.drop_first();
        lemma_tokens_concat(x1, y);
        lemma_tokens_nonempty(x1);
        assert((x + y).drop_first() =~= x1 + y);
        assert((x + y)[0] == x[0]);
        let tx1 = spec_tokens(x1);
        let ty = spec_tokens(y);
        if x[0] == '.' {
            assert(spec_tokens(x).drop_last() =~= seq![Seq::<char>::empty()] + tx1.drop_last());
            assert(spec_tokens(x + y) =~= spec_tokens(x).drop_last() + seq![
                spec_tokens(x).last() + ty[0],
            ] + ty.drop_first());
        } else {
            if tx1.len() > 1 {
                assert(spec_tokens(x).drop_last() =~= tx1.drop_last().update(
                    0,
                    seq![x[0]] + tx1[0],
                ));
            } else {
                assert(tx1.drop_last() =~= Seq::<Seq<char>>::empty());
                assert(seq![x[0]] + (tx1[0] + ty[0]) =~= (seq![x[0]] + tx1[0]) + ty[0]);
            }
            assert(spec_tokens(x + y) =~= spec_tokens(x).drop_last() + seq![
                spec_tokens(x).last() + ty[0],
            ] + ty.drop_first());
        }
    }
}

/// The tokens of `a.b`, where `a` holds no `.`: `a`, then the tokens of `b`.
pub proof fn lemma_tokens_dot(a: Seq<char>, b: Seq<char>)
    requires
        spec_is_token(a),
    ensures
        spec_tokens(a + "."@ + b) == seq![a] + spec_tokens(b),
{
    reveal_strlit(".");
    let d = "."@ + b;
    assert(a + "."@ + b =~= a + d);
    lemma_tokens_concat(a, d);
    lemma_tokens_of_token(a);
    assert(d.drop_first() =~= b);
    assert(d[0] == '.');
    assert(spec_tokens(d) =~= seq![Seq::<char>::empty()] + spec_tokens(b));
    assert(a + Seq::<char>::empty() =~= a);
    assert(spec_tokens(a + d) =~= seq![a] + spec_tokens(b));
}

/// The tokens of `a.b.c`, for three texts without `.`.
proof fn lemma_three_tokens(a: Seq<char>, b: Seq<char>, c: Seq<char>)
    requires
        spec_is_token(a),
        spec_is_token(b),
        spec_is_token(c),
    ensures
        spec_tokens(a + "."@ + b + "."@ + c) == seq![a, b, c],
{
    lemma_tokens_dot(b, c);
    lemma_tokens_of_token(c);
    assert(a + "."@ + b + "."@ + c =~= a + "."@ + (b + "."@ + c));
    lemma_tokens_dot(a, b + "."@ + c);
    assert(seq![a] + seq![b, c] =~= seq![a, b, c]);
}

/// The wildcard `devices.*.telemetry` matches the telemetry subject of every
/// device whose id is one non-empty token, and neither its status nor its
/// command subject.
pub proof fn lemma_all_device_telemetry_matches(device_id: Seq<char>)
    requires
        device_id.len() > 0,
        spec_is_token(device_id),
    ensures
        spec_subject_matches("devices.*.telemetry"@, spec_device_telemetry(device_id)),
        !spec_subject_matches("devices.*.telemetry"@, spec_device_status(device_id)),
        !spec_subject_matches("devices.*.telemetry"@, spec_device_command(device_id)),
{
    reveal_strlit("devices.*.telemetry");
    reveal_strlit("devices.");
    reveal_strlit(".telemetry");
    reveal_strlit(".status");
    reveal_strlit(".command");
    reveal_strlit("devices");
    reveal_strlit("telemetry");
    reveal_strlit("status");
    reveal_strlit("command");
    reveal_strlit("*");
    reveal_strlit(".");
    let dev = "devices"@;
    let tel = "telemetry"@;
    let sta = "status"@;
    let com = "command"@;
    let star = "*"@;
    assert(spec_is_token(dev));
    assert(spec_is_token(tel));
    assert(spec_is_token(sta));
    assert(spec_is_token(com));
    assert(spec_is_token(star));
    assert("devices.*.telemetry"@ =~= dev + "."@ + star + "."@ + tel);
    assert(spec_device_telemetry(device_id) =~= dev + "."@ + device_id + "."@ + tel);
    assert(spec_device_status(device_id) =~= dev + "."@ + device_id + "."@ + sta);
    assert(spec_device_command(device_id) =~= dev + "."@ + device_id + "."@ + com);
    lemma_three_tokens(dev, star, tel);
    lemma_three_tokens(dev, device_id, tel);
    lemma_three_tokens(dev, device_id, sta);
    lemma_three_tokens(dev, device_id, com);
    assert(tel.len() != sta.len());
    assert(tel.len() != com.len());
    assert(seq![dev, star, tel][2] != seq![dev, device_id, sta][2]);
    assert(seq![dev, star, tel][2] != seq![dev, device_id, com][2]);
    assert(tel != star);
}

/// The wildcard `backend.command.*` matches the command subject of every
/// device whose id is one non-empty token, and not the backend telemetry
/// subject.
pub proof fn lemma_all_backend_commands_matches(device_id: Seq<char>)
    requires
        device_id.len() > 0,
        spec_is_token(device_id),
    ensures
        spec_subject_matches("backend.command.*"@, spec_backend_command(device_id)),
        !spec_subject_matches("backend.command.*"@, "backend.telemetry"@),
{
    reveal_strlit("backend.command.*");
    reveal_strlit("backend.command.");
    reveal_strlit("backend.telemetry");
    reveal_strlit("backend");
    reveal_strlit("command");
    reveal_strlit("telemetry");
    reveal_strlit("*");
    reveal_strlit(".");
    let back = "backend"@;
    let com = "command"@;
    let tel = "telemetry"@;
    let star = "*"@;
    assert(spec_is_token(back));
    assert(spec_is_token(com));
    assert(spec_is_token(tel));
    assert(spec_is_token(star));
    assert("backend.command.*"@ =~= back + "."@ + com + "."@ + star);
    assert(spec_backend_command(device_id) =~= back + "."@ + com + "."@ + device_id);
    assert("backend.telemetry"@ =~= back + "."@ + tel);
    lemma_three_tokens(back, com, star);
    lemma_three_tokens(back, com, device_id);
    lemma_tokens_dot(back, tel);
    lemma_tokens_of_token(tel);
    assert(seq![back] + seq![tel] =~= seq![back, tel]);
    assert(back != star);
}

} // verus!
