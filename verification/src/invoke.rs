//! The process contract: decoding the single JSON argument an orchestrator
//! hands a scanner module, and encoding the one outcome line the module
//! prints on standard output.

use vstd::prelude::*;
use vstd::string::{StrSliceExecFns, StringExecFns};

use crate::decode::{sp_null, sp_opt_string};
use crate::encode::enc_opt_string;
use crate::schema::opt_view;
use crate::text::{
    chars_to_string, enc_string, p_skip_value, p_string, push_lit, push_string, skip_ws,
    sp_skip_value, sp_string, sp_ws, str_to_chars,
};

verus! {

// ---------------------------------------------------------------------------
// Outcome line
// ---------------------------------------------------------------------------

/// Model of the outcome record.
#[verifier::ext_equal]
pub ghost struct SpecOutcome {
    pub success: bool,
    pub result_path: Option<Seq<char>>,
    pub error: Option<Seq<char>>,
}

/// The canonical JSON line that reports an outcome.
pub open spec fn enc_outcome(o: SpecOutcome) -> Seq<char> {
    "{\"success\":"@ + (if o.success {
        "true"@
    } else {
        "false"@
    }) + ",\"result_path\":"@ + enc_opt_string(o.result_path) + ",\"error\":"@ + enc_opt_string(
        o.error,
    ) + "}"@
}

/// The outcome a module reports when it is done: written once, serialized,
/// and printed as a single line; never read back in-process.
pub struct PackageStdoutResult {
    pub success: bool,
    pub result_path: Option<String>,
    pub error: Option<String>,
}

impl View for PackageStdoutResult {
    type V = SpecOutcome;

    open spec fn view(&self) -> SpecOutcome {
        SpecOutcome {
            success: self.success,
            result_path: opt_view(self.result_path),
            error: opt_view(self.error),
        }
    }
}

impl PackageStdoutResult {
    /// Success construction: the module wrote its full result to
    /// `result_path`.
    pub fn ok(result_path: String) -> (r: PackageStdoutResult)
        ensures
            r@.success == true,
            r@.result_path == Some(result_path@),
            (r@.error is None),
    {
        PackageStdoutResult { success: true, result_path: Some(result_path), error: None }
    }

    /// Failure construction: the module failed with a human-readable
    /// message.
    pub fn err(error: String) -> (r: PackageStdoutResult)
        ensures
            r@.success == false,
            (r@.result_path is None),
            r@.error == Some(error@),
    {
        PackageStdoutResult { success: false, result_path: None, error: Some(error) }
    }

    /// The single line of JSON that reports this outcome. The caller prints
    /// it, followed by a line terminator, on standard output.
    pub fn to_json_line(&self) -> (r: String)
        ensures
            r@ == enc_outcome(self@),
    {
        let mut out: Vec<char> = Vec::new();
        push_lit(&mut out, "{\"success\":");
        if self.success {
            push_lit(&mut out, "true");
        } else {
            push_lit(&mut out, "false");
        }
        push_lit(&mut out, ",\"result_path\":");
        match &self.result_path {
            None => push_lit(&mut out, "null"),
            Some(p) => push_string(&mut out, p.as_str()),
        }
        push_lit(&mut out, ",\"error\":");
        match &self.error {
            None => push_lit(&mut out, "null"),
            Some(e) => push_string(&mut out, e.as_str()),
        }
        push_lit(&mut out, "}");
        proof {
            assert(out@ =~= enc_outcome(self@));
        }
        chars_to_string(out)
    }
}

// ---------------------------------------------------------------------------
// Invocation request
// ---------------------------------------------------------------------------

/// Model of the parameter mapping: key/value pairs in first-seen order.
pub open spec fn pairs_view(v: Seq<(String, String)>) -> Seq<(Seq<char>, Seq<char>)> {
    Seq::new(v.len(), |x: int| (v[x].0@, v[x].1@))
}

/// A key already stands in the pair list.
pub open spec fn has_key(ps: Seq<(Seq<char>, Seq<char>)>, k: Seq<char>) -> bool {
    exists|x: int| 0 <= x < ps.len() && ps[x].0 == k
}

/// Model of a decoded invocation request.
#[verifier::ext_equal]
pub ghost struct SpecArgs {
    pub target: Seq<char>,
    pub task_id: Seq<char>,
    pub params: Seq<(Seq<char>, Seq<char>)>,
}

/// The structured invocation request a scanner module is launched with:
/// decoded once from the single JSON argument, immutable thereafter. The
/// parameter mapping keeps each key once, in first-seen order.
pub struct PackageArgs {
    pub target: String,
    pub task_id: String,
    pub params: Vec<(String, String)>,
}

impl View for PackageArgs {
    type V = SpecArgs;

    open spec fn view(&self) -> SpecArgs {
        SpecArgs { target: self.target@, task_id: self.task_id@, params: pairs_view(self.params@) }
    }
}

/// Walk the `"key":"value"` pairs of the parameter object from its first key
/// to the closing brace. Every value must be a string; a repeated key is an
/// error.
pub open spec fn sp_params_fields(
    s: Seq<char>,
    i: int,
    acc: Seq<(Seq<char>, Seq<char>)>,
) -> Option<(Seq<(Seq<char>, Seq<char>)>, int)>
    decreases s.len() - i,
{
    match sp_string(s, i) {
        None => None,
        Some((key, j1)) => {
            if has_key(acc, key) {
                None
            } else {
                let j2 = sp_ws(s, j1);
                if !(j2 < s.len() && s[j2] == ':') {
                    None
                } else {
                    let j3 = sp_ws(s, j2 + 1);
                    match sp_string(s, j3) {
                        None => None,
                        Some((val, j4)) => {
                            let j5 = sp_ws(s, j4);
                            if j5 < s.len() && s[j5] == ',' {
                                let j6 = sp_ws(s, j5 + 1);
                                if i < j6 && j6 <= s.len() {
                                    sp_params_fields(s, j6, acc.push((key, val)))
                                } else {
                                    None
                                }
                            } else if j5 < s.len() && s[j5] == '}' {
                                Some((acc.push((key, val)), j5 + 1))
                            } else {
                                None
                            }
                        },
                    }
                }
            }
        },
    }
}

/// A parameter object: string keys to string values.
pub open spec fn sp_params(s: Seq<char>, i: int) -> Option<(Seq<(Seq<char>, Seq<char>)>, int)> {
    if !(0 <= i < s.len() && s[i] == '{') {
        None
    } else {
        let j = sp_ws(s, i + 1);
        if j < s.len() && s[j] == '}' {
            Some((Seq::empty(), j + 1))
        } else {
            sp_params_fields(s, j, Seq::empty())
        }
    }
}

/// Fields of an invocation request seen so far.
#[verifier::ext_equal]
pub ghost struct ArgsAcc {
    pub target: Option<Seq<char>>,
    pub task_id: Option<Seq<char>>,
    pub params: Option<Seq<(Seq<char>, Seq<char>)>>,
}

pub open spec fn args_acc0() -> ArgsAcc {
    ArgsAcc { target: None, task_id: None, params: None }
}

/// Dispatch one field of the invocation request by its key.
pub open spec fn sp_args_value(s: Seq<char>, i: int, acc: ArgsAcc, key: Seq<char>) -> Option<
    (ArgsAcc, int),
> {
    if key == "target"@ {
        if acc.target is Some {
            None
        } else {
            match sp_string(s, i) {
                None => None,
                Some((v, j)) => Some((ArgsAcc { target: Some(v), ..acc }, j)),
            }
        }
    } else if key == "task_id"@ {
        if acc.task_id is Some {
            None
        } else {
            match sp_string(s, i) {
                None => None,
                Some((v, j)) => Some((ArgsAcc { task_id: Some(v), ..acc }, j)),
            }
        }
    } else if key == "params"@ {
        if acc.params is Some {
            None
        } else {
            match sp_params(s, i) {
                None => None,
                Some((v, j)) => Some((ArgsAcc { params: Some(v), ..acc }, j)),
            }
        }
    } else {
        match sp_skip_value(s, i) {
            None => None,
            Some(j) => Some((acc, j)),
        }
    }
}

pub open spec fn sp_args_fields(s: Seq<char>, i: int, acc: ArgsAcc) -> Option<(ArgsAcc, int)>
    decreases s.len() - i,
{
    match sp_string(s, i) {
        None => None,
        Some((key, j1)) => {
            let j2 = sp_ws(s, j1);
            if !(j2 < s.len() && s[j2] == ':') {
                None
            } else {
                let j3 = sp_ws(s, j2 + 1);
                match sp_args_value(s, j3, acc, key) {
                    None => None,
                    Some((acc2, j4)) => {
                        let j5 = sp_ws(s, j4);
                        if j5 < s.len() && s[j5] == ',' {
                            let j6 = sp_ws(s, j5 + 1);
                            if i < j6 && j6 <= s.len() {
                                sp_args_fields(s, j6, acc2)
                            } else {
                                None
                            }
                        } else if j5 < s.len() && s[j5] == '}' {
                            Some((acc2, j5 + 1))
                        } else {
                            None
                        }
                    },
                }
            }
        },
    }
}

/// All three fields — `target`, `task_id` and `params` — are required.
pub open spec fn args_finish(acc: ArgsAcc) -> Option<SpecArgs> {
    match (acc.target, acc.task_id, acc.params) {
        (Some(target), Some(task_id), Some(params)) => Some(
            SpecArgs { target, task_id, params },
        ),
        _ => None,
    }
}

/// A complete invocation request object.
pub open spec fn sp_args_obj(s: Seq<char>, i: int) -> Option<(SpecArgs, int)> {
    if !(0 <= i < s.len() && s[i] == '{') {
        None
    } else {
        let j = sp_ws(s, i + 1);
        if j < s.len() && s[j] == '}' {
            None
        } else {
            match sp_args_fields(s, j, args_acc0()) {
                None => None,
                Some((acc, j2)) => match args_finish(acc) {
                    None => None,
                    Some(v) => Some((v, j2)),
                },
            }
        }
    }
}

/// A whole argument: one request object, possibly surrounded by whitespace,
/// and nothing after it.
pub open spec fn sp_args_doc(s: Seq<char>) -> Option<SpecArgs> {
    let i = sp_ws(s, 0);
    match sp_args_obj(s, i) {
        None => None,
        Some((v, j)) => {
            let j2 = sp_ws(s, j);
            if j2 == s.len() {
                Some(v)
            } else {
                None
            }
        },
    }
}

/// Message for an argument list that is too short to carry the request.
pub open spec fn spec_usage_message(args: Seq<String>) -> Seq<char> {
    if args.len() == 0 {
        "Not enough arguments. required: ./<program> params_json"@
    } else {
        "Not enough arguments. required: ./"@ + args[0]@ + " params_json"@
    }
}

/// Message for an argument that does not decode, carrying the raw text.
pub open spec fn spec_decode_message(raw: Seq<char>) -> Seq<char> {
    "Error while deserialize argument to PackageArgs. args: "@ + raw
}

/// Model of the parameter list while the object walk runs.
pub open spec fn opt_pairs_view(o: Option<Vec<(String, String)>>) -> Option<
    Seq<(Seq<char>, Seq<char>)>,
> {
    match o {
        None => None,
        Some(ps) => Some(pairs_view(ps@)),
    }
}

/// Look a key up in the pairs gathered so far.
fn params_contains(ps: &Vec<(String, String)>, k: &String) -> (b: bool)
    ensures
        b == has_key(pairs_view(ps@), k@),
{
    let mut x: usize = 0;
    while x < ps.len()
        invariant
            x <= ps@.len(),
            forall|y: int| 0 <= y < x ==> pairs_view(ps@)[y].0 != k@,
        decreases ps@.len() - x,
    {
        if ps[x].0 == *k {
            proof {
                assert(pairs_view(ps@)[x as int].0 == k@);
            }
            return true;
        }
        x = x + 1;
    }
    false
}

/// Parse a parameter object, as `sp_params` describes it.
#[verifier::rlimit(50)]
fn p_params(s: &Vec<char>, i: usize) -> (r: Option<(Vec<(String, String)>, usize)>)
    requires
        i <= s@.len(),
    ensures
        match r {
            Some(p) => sp_params(s@, i as int) == Some((pairs_view(p.0@), p.1 as int)) && i < p.1
                <= s@.len(),
            None => sp_params(s@, i as int) is None,
        },
{
    if i >= s.len() || s[i] != '{' {
        return None;
    }
    let j0 = skip_ws(s, i + 1);
    let mut out: Vec<(String, String)> = Vec::new();
    if j0 < s.len() && s[j0] == '}' {
        proof {
            assert(pairs_view(out@) =~= Seq::<(Seq<char>, Seq<char>)>::empty());
        }
        return Some((out, j0 + 1));
    }
    let mut j = j0;
    proof {
        assert(pairs_view(out@) =~= Seq::<(Seq<char>, Seq<char>)>::empty());
    }
    loop
        invariant
            i < s@.len(),
            s@[i as int] == '{',
            j0 as int == sp_ws(s@, i + 1 as int),
            !(j0 < s@.len() && s@[j0 as int] == '}'),
            i < j0 <= j <= s@.len(),
            sp_params_fields(s@, j0 as int, Seq::empty()) == sp_params_fields(
                s@,
                j as int,
                pairs_view(out@),
            ),
        decreases s@.len() - j,
    {
        let ghost acc = pairs_view(out@);
        let (key, j1) = match p_string(s, j) {
            None => {
                return None;
            },
            Some(p) => p,
        };
        if params_contains(&out, &key) {
            return None;
        }
        let j2 = skip_ws(s, j1);
        if !(j2 < s.len()) {
            return None;
        }
        if s[j2] != ':' {
            return None;
        }
        let j3 = skip_ws(s, j2 + 1);
        let (val, j4) = match p_string(s, j3) {
            None => {
                return None;
            },
            Some(p) => p,
        };
        let ghost kv = (key@, val@);
        out.push((key, val));
        proof {
            assert(pairs_view(out@) =~= acc.push(kv));
        }
        let j5 = skip_ws(s, j4);
        if j5 < s.len() && s[j5] == ',' {
            let j6 = skip_ws(s, j5 + 1);
            proof {
                assert(sp_params_fields(s@, j as int, acc) == sp_params_fields(
                    s@,
                    j6 as int,
                    pairs_view(out@),
                ));
            }
            j = j6;
        } else if j5 < s.len() && s[j5] == '}' {
            proof {
                assert(sp_params_fields(s@, j as int, acc) == Some(
                    (pairs_view(out@), j5 + 1 as int),
                ));
            }
            return Some((out, j5 + 1));
        } else {
            return None;
        }
    }
}

/// Parse a complete invocation request object.
#[verifier::rlimit(80)]
fn p_args_obj(s: &Vec<char>, i: usize) -> (r: Option<(PackageArgs, usize)>)
    requires
        i <= s@.len(),
    ensures
        match r {
            Some(p) => sp_args_obj(s@, i as int) == Some((p.0@, p.1 as int)) && i < p.1
                <= s@.len(),
            None => sp_args_obj(s@, i as int) is None,
        },
{
    if i >= s.len() || s[i] != '{' {
        return None;
    }
    let j0 = skip_ws(s, i + 1);
    if j0 < s.len() && s[j0] == '}' {
        return None;
    }
    let mut target: Option<String> = None;
    let mut task_id: Option<String> = None;
    let mut params: Option<Vec<(String, String)>> = None;
    let mut j = j0;
    loop
        invariant
            i < s@.len(),
            s@[i as int] == '{',
            j0 as int == sp_ws(s@, i + 1 as int),
            !(j0 < s@.len() && s@[j0 as int] == '}'),
            i < j0 <= j <= s@.len(),
            sp_args_fields(s@, j0 as int, args_acc0()) == sp_args_fields(
                s@,
                j as int,
                ArgsAcc {
                    target: opt_view(target),
                    task_id: opt_view(task_id),
                    params: opt_pairs_view(params),
                },
            ),
        decreases s@.len() - j,
    {
        let ghost acc = ArgsAcc {
            target: opt_view(target),
            task_id: opt_view(task_id),
            params: opt_pairs_view(params),
        };
        let (key, j1) = match p_string(s, j) {
            None => {
                return None;
            },
            Some(p) => p,
        };
        let j2 = skip_ws(s, j1);
        if !(j2 < s.len()) {
            return None;
        }
        if s[j2] != ':' {
            return None;
        }
        let j3 = skip_ws(s, j2 + 1);
        let j4: usize;
        if key == String::from_str("target") {
            if target.is_some() {
                return None;
            }
            match p_string(s, j3) {
                None => {
                    return None;
                },
                Some((v, jj)) => {
                    target = Some(v);
                    j4 = jj;
                },
            }
        } else if key == String::from_str("task_id") {
            if task_id.is_some() {
                return None;
            }
            match p_string(s, j3) {
                None => {
                    return None;
                },
                Some((v, jj)) => {
                    task_id = Some(v);
                    j4 = jj;
                },
            }
        } else if key == String::from_str("params") {
            if params.is_some() {
                return None;
            }
            match p_params(s, j3) {
                None => {
                    return None;
                },
                Some((v, jj)) => {
                    params = Some(v);
                    j4 = jj;
                },
            }
        } else {
            match p_skip_value(s, j3) {
                None => {
                    return None;
                },
                Some(jj) => {
                    j4 = jj;
                },
            }
        }
        let ghost acc2 = ArgsAcc {
            target: opt_view(target),
            task_id: opt_view(task_id),
            params: opt_pairs_view(params),
        };
        proof {
            assert(sp_args_value(s@, j3 as int, acc, key@) == Some((acc2, j4 as int)));
        }
        let j5 = skip_ws(s, j4);
        if j5 < s.len() && s[j5] == ',' {
            let j6 = skip_ws(s, j5 + 1);
            proof {
                assert(sp_args_fields(s@, j as int, acc) == sp_args_fields(s@, j6 as int, acc2));
            }
            j = j6;
        } else if j5 < s.len() && s[j5] == '}' {
            proof {
                assert(sp_args_fields(s@, j as int, acc) == Some((acc2, j5 + 1 as int)));
            }
            let out_target = match target {
                Some(v) => v,
                None => {
                    return None;
                },
            };
            let out_task_id = match task_id {
                Some(v) => v,
                None => {
                    return None;
                },
            };
            let out_params = match params {
                Some(v) => v,
                None => {
                    return None;
                },
            };
            return Some(
                (
                    PackageArgs { target: out_target, task_id: out_task_id, params: out_params },
                    j5 + 1,
                ),
            );
        } else {
            return None;
        }
    }
}

impl PackageArgs {
    /// Decode the invocation request from the process's argument list: the
    /// element after the program name must be one JSON object with `target`,
    /// `task_id` and `params`. With fewer than two arguments the result is
    /// the usage message; with an argument that does not decode, a message
    /// that carries the raw argument text.
    pub fn parse_args(args: &Vec<String>) -> (r: Result<PackageArgs, String>)
        ensures
            args@.len() < 2 ==> (r matches Err(m) && m@ == spec_usage_message(args@)),
            args@.len() >= 2 ==> match r {
                Ok(v) => sp_args_doc(args@[1]@) == Some(v@),
                Err(m) => sp_args_doc(args@[1]@) is None && m@ == spec_decode_message(
                    args@[1]@,
                ),
            },
    {
        if args.len() < 2 {
            if args.len() == 0 {
                return Err(
                    String::from_str("Not enough arguments. required: ./<program> params_json"),
                );
            }
            let mut m = String::from_str("Not enough arguments. required: ./");
            m.append(args[0].as_str());
            m.append(" params_json");
            return Err(m);
        }
        let chars = str_to_chars(args[1].as_str());
        let i = skip_ws(&chars, 0);
        let parsed = p_args_obj(&chars, i);
        match parsed {
            Some((v, j)) => {
                let j2 = skip_ws(&chars, j);
                if j2 == chars.len() {
                    return Ok(v);
                }
            },
            None => {},
        }
        let mut m = String::from_str("Error while deserialize argument to PackageArgs. args: ");
        m.append(args[1].as_str());
        Err(m)
    }
}

} // verus!
