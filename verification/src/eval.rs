use vstd::prelude::*;
use vstd::string::*;
use crate::bind::{
    bind_args, bind_model, bound_from, empty_bound, lemma_bind_tokens, BindFailV, BoundArgs,
    BoundV,
};
use crate::error::{ErrorKind, Outcome, ShellError};
use crate::from_csv::{csv_cells, csv_table_ok, run_from_csv, tag_like};
use crate::host::Host;
use crate::open_cmd::{
    from_cmd_name, lemma_find_named_mem, open_choice, open_run_post, open_sig_ok, Open,
};
use crate::parse::{lemma_parse_stages_nonempty, parse_line, parse_model, Stage, StageV};
use crate::registry::{
    lookup_model, registry_wf, CommandDescriptor, CommandKind, CommandRegistry,
};
use crate::signature::Signature;
use crate::value::{CommandAction, ReturnValue, Span, Tag, UntaggedValue, Value};

verus! {

/// The transient per-line state: the registry of built-ins this line
/// evaluates against. A fresh context is built for every invocation and
/// discarded after its outcome is encoded, so concurrent evaluations share
/// nothing.
#[derive(Debug)]
pub struct ExecutionContext {
    pub registry: CommandRegistry,
}

/// The default registry: the open command and the comma-separated-values
/// conversion, under unique names.
pub open spec fn default_registry_ok(reg: CommandRegistry) -> bool {
    &&& reg.cmds@.len() == 2
    &&& reg.cmds@[0].name@ == "open"@
    &&& reg.cmds@[0].kind == CommandKind::OpenCmd
    &&& open_sig_ok(reg.cmds@[0].signature)
    &&& reg.cmds@[1].name@ == "from csv"@
    &&& reg.cmds@[1].kind == CommandKind::FromCsv
    &&& reg.cmds@[1].signature.positional@.len() == 0
    &&& reg.cmds@[1].signature.named@.len() == 0
    &&& reg.cmds@[1].signature.switches@.len() == 0
    &&& registry_wf(reg)
}

/// Builds the fresh per-line context with the built-in set registered:
/// the open command and the comma-separated-values conversion.
pub fn create_default_context() -> (r: Result<ExecutionContext, String>)
    ensures
        r matches Ok(ctx) && default_registry_ok(ctx.registry),
{
    let mut registry = CommandRegistry::new();
    let open_cmd = Open;
    let open_sig = open_cmd.signature();
    registry.register(
        CommandDescriptor {
            name: String::from_str(open_cmd.name()),
            usage: String::from_str(open_cmd.usage()),
            signature: open_sig,
            kind: CommandKind::OpenCmd,
        },
    );
    registry.register(
        CommandDescriptor {
            name: String::from_str("from csv"),
            usage: String::from_str("Parse text as comma-separated values and create a table."),
            signature: Signature::build(String::from_str("from csv")),
            kind: CommandKind::FromCsv,
        },
    );
    proof {
        reveal_strlit("open");
        reveal_strlit("from csv");
        assert("open"@.len() == 4);
        assert("from csv"@.len() == 8);
    }
    Ok(ExecutionContext { registry })
}

/// A resolution or binding failure of the plan: its kind, its span, and —
/// for an unresolved command — the name that failed to resolve.
pub struct PlanFailV {
    pub kind: ErrorKind,
    pub span: Span,
    pub cmd: Seq<char>,
}

pub open spec fn joined_name(a: Seq<char>, b: Seq<char>) -> Seq<char> {
    a + seq![' '] + b
}

/// How a stage's command name resolves: the first two tokens joined by a
/// space where that names a registered command (a two-word name such as a
/// format conversion), else the first token alone. Yields the command's
/// index and the position of the first argument token.
pub open spec fn stage_resolution(reg: CommandRegistry, st: StageV) -> Option<(int, int)> {
    let two = if st.tokens.len() >= 2 {
        lookup_model(reg, joined_name(st.tokens[0].text, st.tokens[1].text))
    } else {
        None
    };
    match two {
        Option::Some(k) => Some((k, 2)),
        Option::None => match lookup_model(reg, st.tokens[0].text) {
            Option::Some(k) => Some((k, 1)),
            Option::None => None,
        },
    }
}

/// Resolution and binding of every stage, in order: the first stage whose
/// name is not registered fails with CommandNotFound at the name's span;
/// the first stage whose arguments do not match its command's signature
/// fails as binding says. When every stage resolves and binds, there is no
/// failure.
pub open spec fn plan_fold(reg: CommandRegistry, stages: Seq<StageV>, i: int) -> Option<PlanFailV>
    decreases stages.len() - i,
{
    if i < 0 || i >= stages.len() {
        None
    } else {
        let st = stages[i];
        match stage_resolution(reg, st) {
            Option::None => Some(
                PlanFailV {
                    kind: ErrorKind::CommandNotFound,
                    span: st.tokens[0].span,
                    cmd: st.tokens[0].text,
                },
            ),
            Option::Some((k, from)) => match bind_model(
                reg.cmds@[k].signature,
                st.span,
                st.tokens,
                from,
            ) {
                Result::Err(f) => Some(
                    PlanFailV { kind: f.kind, span: f.span, cmd: Seq::empty() },
                ),
                Result::Ok(_) => plan_fold(reg, stages, i + 1),
            },
        }
    }
}

/// Resolves one stage's command name, exactly as `stage_resolution` says.
fn resolve_stage(reg: &CommandRegistry, st: &Stage) -> (r: Option<(usize, usize)>)
    requires
        st@.tokens.len() > 0,
    ensures
        match r {
            Option::Some((k, from)) => stage_resolution(*reg, st@) == Some((k as int, from as int))
                && k < reg.cmds@.len() && from <= st@.tokens.len(),
            Option::None => stage_resolution(*reg, st@) is None,
        },
{
    if st.tokens.len() >= 2 {
        let joined = String::from_str(st.tokens[0].text.as_str()).concat(" ").concat(
            st.tokens[1].text.as_str(),
        );
        proof {
            reveal_strlit(" ");
            assert(joined@ =~= joined_name(st@.tokens[0].text, st@.tokens[1].text));
        }
        match reg.find_command(&joined) {
            Some(k) => {
                return Some((k, 2));
            },
            None => {},
        }
    }
    match reg.find_command(&st.tokens[0].text) {
        Some(k) => Some((k, 1)),
        None => None,
    }
}

/// What evaluating one line guarantees: a parse failure becomes a Parse
/// error at its span; otherwise the first resolution or binding failure,
/// taken in stage order, becomes the outcome (an unresolved name as a
/// CommandNotFound naming it) and no stage runs; otherwise the line runs —
/// an empty or conversion-only line yields the nothing value, a run ends
/// in a success or in an execution-time error pointing into the line, and
/// a one-stage open line or an open-then-convert line pins the success
/// value to the open command's contract. For longer pipelines the success
/// value is constrained only stage-locally, through the commands' own
/// contracts. A MissingArgument can arise at run time only under a
/// registry whose open command declares no required path, which the
/// default registry rules out.
pub open spec fn eval_post(line: Seq<char>, reg: CommandRegistry, out: Outcome) -> bool {
    &&& (parse_model(line) matches Err(sp) ==> (out matches Outcome::Error(e) && e.kind
        == ErrorKind::Parse && e.span == sp))
    &&& (parse_model(line) matches Ok(stages) ==> {
        &&& (plan_fold(reg, stages, 0) matches Some(f) ==> (out matches Outcome::Error(e)
            && e.kind == f.kind && e.span == f.span && (f.kind == ErrorKind::CommandNotFound
            ==> e.message@ == "command not found: "@ + f.cmd)))
        &&& ((plan_fold(reg, stages, 0) is None && stages.len() == 0) ==> (out matches
            Outcome::Success(v) && v.value is Nothing))
        &&& (plan_fold(reg, stages, 0) is None ==> (out matches Outcome::Success(_) || (out
            matches Outcome::Error(e) && (e.kind == ErrorKind::MissingArgument || e.kind
            == ErrorKind::TypeMismatch || e.kind == ErrorKind::CouldNotOpen || e.kind
            == ErrorKind::InvalidEncoding) && pipeline_span(stages, e.span))))
        &&& ((plan_fold(reg, stages, 0) is None && all_from_csv(reg, stages)) ==> (out matches
            Outcome::Success(v) && v.value is Nothing))
        &&& ((plan_fold(reg, stages, 0) is None && stages.len() == 1) ==> single_stage_open_post(
            reg,
            stages[0],
            out,
        ))
        &&& ((plan_fold(reg, stages, 0) is None && stages.len() == 2) ==> open_csv_pipeline_post(
            reg,
            stages[0],
            stages[1],
            out,
        ))
    })
}

fn nothing_value() -> (v: Value)
    ensures
        v.value is Nothing,
{
    UntaggedValue::nothing().into_value(Tag::from_span(Span::unknown()))
}

/// How one element of a stage's output relates to the value it contributes
/// to the stream once the evaluator has handled it: a plain value passes
/// unchanged, an auto-conversion request is replaced by the registered
/// conversion's output.
pub open spec fn applied_rel(rv: ReturnValue, reg: CommandRegistry, v: Value) -> bool {
    match rv {
        ReturnValue::Val(v0) => v == v0,
        ReturnValue::Action(a) => match a {
            CommandAction::AutoConvert(v0, ext) => {
                let lk = lookup_model(reg, from_cmd_name(ext@));
                &&& ((lk matches Some(k) && reg.cmds@[k].kind == CommandKind::FromCsv)
                    ==> csv_applied(v0, Result::Ok(v)))
                &&& ((match lk {
                    Option::Some(k) => reg.cmds@[k].kind != CommandKind::FromCsv,
                    Option::None => true,
                }) ==> v == v0)
            },
        },
    }
}

/// What a successful one-stage open line yields: some output of the open
/// command under its contract, with any auto-conversion applied.
pub open spec fn single_stage_open_post(reg: CommandRegistry, st: StageV, out: Outcome) -> bool {
    stage_resolution(reg, st) matches Some(kf) ==> (reg.cmds@[kf.0].kind == CommandKind::OpenCmd
        ==> (out matches Outcome::Success(v) ==> exists|b: BoundV, outs: Vec<ReturnValue>|
        {
            &&& bind_model(reg.cmds@[kf.0].signature, st.span, st.tokens, kf.1) == Result::<
                BoundV,
                BindFailV,
            >::Ok(b)
            &&& #[trigger] open_run_post(b, reg, st.span, Result::Ok(outs))
            &&& outs@.len() == 1
            &&& applied_rel(outs@[0], reg, v)
        }))
}

/// What a successful open-then-convert line yields: the open command's
/// output under its contract, the auto-conversion applied, and the csv
/// conversion of the resulting value.
pub open spec fn open_csv_pipeline_post(
    reg: CommandRegistry,
    st0: StageV,
    st1: StageV,
    out: Outcome,
) -> bool {
    stage_resolution(reg, st0) matches Some(kf0) ==> (reg.cmds@[kf0.0].kind
        == CommandKind::OpenCmd ==> (stage_resolution(reg, st1) matches Some(kf1) ==> (
    reg.cmds@[kf1.0].kind == CommandKind::FromCsv ==> (out matches Outcome::Success(v)
        ==> exists|b: BoundV, outs: Vec<ReturnValue>, v0: Value|
        #![trigger open_run_post(b, reg, st0.span, Result::Ok(outs)), applied_rel(
            outs@[0],
            reg,
            v0,
        )]
        {
            &&& bind_model(reg.cmds@[kf0.0].signature, st0.span, st0.tokens, kf0.1) == Result::<
                BoundV,
                BindFailV,
            >::Ok(b)
            &&& open_run_post(b, reg, st0.span, Result::Ok(outs))
            &&& outs@.len() == 1
            &&& applied_rel(outs@[0], reg, v0)
            &&& csv_applied(v0, Result::Ok(v))
        }))))
}

/// What applying the comma-separated-values conversion to a value yields.
pub open spec fn csv_applied(v: Value, r: Result<Value, ShellError>) -> bool {
    &&& (v.value matches UntaggedValue::Str(s) ==> (r matches Ok(out) && tag_like(out.tag, v.tag)
        && (out.value matches UntaggedValue::Table(rows) && csv_table_ok(
        rows@,
        csv_cells(s@),
        v.tag,
    ))))
    &&& (!(v.value matches UntaggedValue::Str(_)) ==> r is Err)
}

/// Applies one element of a stage's output to the stream: a plain value
/// passes through unchanged; an auto-conversion request runs the
/// registered conversion command on the value.
pub fn apply_return<H: Host>(
    rv: ReturnValue,
    stage_span: Span,
    ctx: &ExecutionContext,
    _host: &H,
) -> (r: Result<Value, ShellError>)
    ensures
        r matches Ok(v) ==> applied_rel(rv, ctx.registry, v),
        rv matches ReturnValue::Val(v) ==> (r matches Ok(out) && out == v),
        rv matches ReturnValue::Action(a) ==> (a matches CommandAction::AutoConvert(v, ext) && {
            let lk = lookup_model(ctx.registry, from_cmd_name(ext@));
            &&& ((lk matches Some(k) && ctx.registry.cmds@[k].kind == CommandKind::FromCsv)
                ==> csv_applied(v, r))
            &&& ((match lk {
                Option::Some(k) => ctx.registry.cmds@[k].kind != CommandKind::FromCsv,
                Option::None => true,
            }) ==> (r matches Ok(out) && out == v))
        }),
        r matches Err(e) ==> (e.kind == ErrorKind::TypeMismatch && e.span == stage_span),
{
    match rv {
        ReturnValue::Val(v) => Ok(v),
        ReturnValue::Action(a) => match a {
            CommandAction::AutoConvert(v, ext) => {
                let cmd_name = String::from_str("from ").concat(ext.as_str());
                match ctx.registry.find_command(&cmd_name) {
                    Some(ci) => match ctx.registry.cmds[ci].kind {
                        CommandKind::FromCsv => run_from_csv(v, stage_span),
                        CommandKind::OpenCmd => Ok(v),
                    },
                    None => Ok(v),
                }
            },
        },
    }
}

/// One entry of the evaluator's plan: stage `st` resolved to command `k`
/// with its arguments starting at token `from`, and bound to `b`.
pub open spec fn plan_entry_ok(
    reg: CommandRegistry,
    st: StageV,
    k: usize,
    from: usize,
    b: BoundArgs,
) -> bool {
    &&& stage_resolution(reg, st) == Some((k as int, from as int))
    &&& k < reg.cmds@.len()
    &&& bind_model(reg.cmds@[k as int].signature, st.span, st.tokens, from as int) == Result::<
        BoundV,
        BindFailV,
    >::Ok(b@)
}

/// Whether a span is one of the pipeline's stages' spans or one of their
/// tokens' spans: every runtime failure points into the line.
pub open spec fn pipeline_span(stages: Seq<StageV>, sp: Span) -> bool {
    exists|i: int|
        0 <= i < stages.len() && ((#[trigger] stages[i]).span == sp || exists|j: int|
            0 <= j < stages[i].tokens.len() && (#[trigger] stages[i].tokens[j]).span == sp)
}

/// A pipeline whose every stage resolves to the csv conversion: such a line
/// involves no host call, so nothing outside the engine can make it fail.
pub open spec fn all_from_csv(reg: CommandRegistry, stages: Seq<StageV>) -> bool {
    forall|i: int|
        0 <= i < stages.len() ==> (#[trigger] stage_resolution(reg, stages[i]) matches Some(kf)
            && reg.cmds@[kf.0].kind == CommandKind::FromCsv)
}

proof fn lemma_open_err_span(
    reg: CommandRegistry,
    stages: Seq<StageV>,
    i: int,
    k: usize,
    from: usize,
    b: BoundArgs,
    e: ShellError,
)
    requires
        0 <= i < stages.len(),
        plan_entry_ok(reg, stages[i], k, from, b),
        (e.kind == ErrorKind::MissingArgument && e.span == stages[i].span) || (e.kind
            == ErrorKind::CouldNotOpen && b@.positional.len() > 0 && e.span
            == b@.positional[0].span) || (e.kind == ErrorKind::InvalidEncoding && (open_choice(b@)
            matches Some(tv) && e.span == tv.span)),
    ensures
        pipeline_span(stages, e.span),
{
    let tokens = stages[i].tokens;
    if e.kind == ErrorKind::MissingArgument {
        assert(stages[i].span == e.span);
    } else {
        lemma_bind_tokens(
            reg.cmds@[k as int].signature,
            stages[i].span,
            tokens,
            from as int,
            empty_bound(),
            b@,
        );
        if e.kind == ErrorKind::CouldNotOpen {
            let j = choose|j: int| 0 <= j < tokens.len() && b@.positional[0] == tokens[j];
            assert(stages[i].tokens[j].span == e.span);
        } else {
            let tv = open_choice(b@)->Some_0;
            lemma_find_named_mem(b@.named, "encoding"@, tv);
            let t = choose|t: int| 0 <= t < b@.named.len() && (#[trigger] b@.named[t]).1 == tv;
            let j = choose|j: int| 0 <= j < tokens.len() && b@.named[t].1 == tokens[j];
            assert(stages[i].tokens[j].span == e.span);
        }
    }
}

/// Evaluates one line: parse, resolve and bind every stage, then run the
/// stages in order, the output stream of each the input of the next, a
/// failing stage aborting the rest. The final stream collapses to the
/// outcome: nothing, the single value, or a table of the values.
pub fn evaluate<H: Host>(line: &str, ctx: &ExecutionContext, host: &H) -> (out: Outcome)
    ensures
        eval_post(line@, ctx.registry, out),
{
    let stages = match parse_line(line) {
        Err(e) => {
            return Outcome::Error(e);
        },
        Ok(s) => s,
    };
    let ghost stagesv = stages.deep_view();
    proof {
        lemma_parse_stages_nonempty(line@, stagesv);
    }
    let n = stages.len();
    // resolve and bind every stage before any stage runs
    let mut plan: Vec<(usize, usize, BoundArgs)> = Vec::new();
    let mut i: usize = 0;
    while i < n
        invariant
            0 <= i <= n,
            n == stages@.len(),
            stagesv == stages.deep_view(),
            parse_model(line@) == Result::<Seq<StageV>, Span>::Ok(stagesv),
            forall|t: int| 0 <= t < stagesv.len() ==> #[trigger] stagesv[t].tokens.len() > 0,
            plan_fold(ctx.registry, stagesv, 0) == plan_fold(ctx.registry, stagesv, i as int),
            plan@.len() == i,
            forall|t: int|
                0 <= t < plan@.len() ==> #[trigger] plan_entry_ok(
                    ctx.registry,
                    stagesv[t],
                    plan@[t].0,
                    plan@[t].1,
                    plan@[t].2,
                ),
        decreases n - i,
    {
        let st = &stages[i];
        assert(stagesv[i as int].tokens.len() > 0);
        match resolve_stage(&ctx.registry, st) {
            None => {
                let msg = String::from_str("command not found: ").concat(
                    st.tokens[0].text.as_str(),
                );
                return Outcome::Error(
                    ShellError::labeled(ErrorKind::CommandNotFound, msg, st.tokens[0].span),
                );
            },
            Some((k, from)) => {
                match bind_args(&ctx.registry.cmds[k].signature, st.span, &st.tokens, from) {
                    Err(e) => {
                        return Outcome::Error(e);
                    },
                    Ok(b) => {
                        plan.push((k, from, b));
                    },
                }
            },
        }
        i = i + 1;
    }
    if n == 0 {
        return Outcome::Success(nothing_value());
    }
    // run the pipeline
    let mut stream: Vec<Value> = Vec::new();
    let mut i: usize = 0;
    let ghost mut open_outs: Option<Vec<ReturnValue>> = None;
    while i < n
        invariant
            0 < n,
            0 <= i <= n,
            n == stages@.len(),
            n == plan@.len(),
            stagesv == stages.deep_view(),
            parse_model(line@) == Result::<Seq<StageV>, Span>::Ok(stagesv),
            plan_fold(ctx.registry, stagesv, 0) is None,
            forall|t: int|
                0 <= t < plan@.len() ==> #[trigger] plan_entry_ok(
                    ctx.registry,
                    stagesv[t],
                    plan@[t].0,
                    plan@[t].1,
                    plan@[t].2,
                ),
            all_from_csv(ctx.registry, stagesv) ==> stream@.len() == 0,
            (i == 1 && ctx.registry.cmds@[plan@[0].0 as int].kind == CommandKind::OpenCmd) ==> (
            open_outs matches Some(ov) && {
                &&& open_run_post(plan@[0].2@, ctx.registry, stagesv[0].span, Result::Ok(ov))
                &&& ov@.len() == 1
                &&& stream@.len() == 1
                &&& applied_rel(ov@[0], ctx.registry, stream@[0])
            }),
            (i == 2 && 2 <= n && ctx.registry.cmds@[plan@[0].0 as int].kind
                == CommandKind::OpenCmd && ctx.registry.cmds@[plan@[1].0 as int].kind
                == CommandKind::FromCsv) ==> (open_outs matches Some(ov) && {
                &&& open_run_post(plan@[0].2@, ctx.registry, stagesv[0].span, Result::Ok(ov))
                &&& ov@.len() == 1
                &&& stream@.len() == 1
                &&& exists|v0: Value|
                    #[trigger] applied_rel(ov@[0], ctx.registry, v0) && csv_applied(
                        v0,
                        Result::Ok(stream@[0]),
                    )
            }),
        decreases n - i,
    {
        let k = plan[i].0;
        proof {
            assert(plan_entry_ok(
                ctx.registry,
                stagesv[i as int],
                plan@[i as int].0,
                plan@[i as int].1,
                plan@[i as int].2,
            ));
            if all_from_csv(ctx.registry, stagesv) {
                assert(stage_resolution(ctx.registry, stagesv[i as int]) matches Some(kf)
                    && ctx.registry.cmds@[kf.0].kind == CommandKind::FromCsv);
                assert(ctx.registry.cmds@[plan@[i as int].0 as int].kind == CommandKind::FromCsv);
            }
        }
        let stage_span = stages[i].span;
        proof {
            assert(stagesv[i as int].span == stage_span);
            assert(pipeline_span(stagesv, stage_span));
        }
        let kind = ctx.registry.cmds[k].kind;
        let ghost pre_stream = stream@;
        let mut outputs: Vec<ReturnValue> = Vec::new();
        match kind {
            CommandKind::OpenCmd => {
                let open_cmd = Open;
                match open_cmd.run(host, &plan[i].2, stage_span, &ctx.registry) {
                    Err(e) => {
                        proof {
                            lemma_open_err_span(
                                ctx.registry,
                                stagesv,
                                i as int,
                                plan@[i as int].0,
                                plan@[i as int].1,
                                plan@[i as int].2,
                                e,
                            );
                        }
                        return Outcome::Error(e);
                    },
                    Ok(o) => {
                        outputs = o;
                    },
                }
                proof {
                    if i == 0 {
                        open_outs = Some(outputs);
                    }
                }
            },
            CommandKind::FromCsv => {
                while stream.len() > 0
                    invariant
                        parse_model(line@) == Result::<Seq<StageV>, Span>::Ok(stagesv),
                        plan_fold(ctx.registry, stagesv, 0) is None,
                        stagesv.len() > 0,
                        0 < n,
                        n == plan@.len(),
                        pipeline_span(stagesv, stage_span),
                        all_from_csv(ctx.registry, stagesv) ==> stream@.len() == 0 && outputs@.len()
                            == 0,
                        (i == 1 && 2 <= n && ctx.registry.cmds@[plan@[0].0 as int].kind
                            == CommandKind::OpenCmd) ==> (open_outs matches Some(ov) && {
                            &&& open_run_post(
                                plan@[0].2@,
                                ctx.registry,
                                stagesv[0].span,
                                Result::Ok(ov),
                            )
                            &&& ov@.len() == 1
                            &&& pre_stream.len() == 1
                            &&& applied_rel(ov@[0], ctx.registry, pre_stream[0])
                            &&& stream@.len() + outputs@.len() == 1
                            &&& (stream@.len() == 1 ==> stream@[0] == pre_stream[0])
                            &&& (outputs@.len() == 1 ==> (outputs@[0] matches ReturnValue::Val(nv)
                                && csv_applied(pre_stream[0], Result::Ok(nv))))
                        }),
                    decreases stream.len(),
                {
                    let v = stream.remove(0);
                    match run_from_csv(v, stage_span) {
                        Err(e) => {
                            return Outcome::Error(e);
                        },
                        Ok(nv) => {
                            outputs.push(ReturnValue::Val(nv));
                        },
                    }
                }
            },
        }
        let mut next: Vec<Value> = Vec::new();
        while outputs.len() > 0
            invariant
                parse_model(line@) == Result::<Seq<StageV>, Span>::Ok(stagesv),
                plan_fold(ctx.registry, stagesv, 0) is None,
                stagesv.len() > 0,
                0 < n,
                n == plan@.len(),
                pipeline_span(stagesv, stage_span),
                all_from_csv(ctx.registry, stagesv) ==> outputs@.len() == 0 && next@.len() == 0,
                (i == 0 && ctx.registry.cmds@[plan@[0].0 as int].kind == CommandKind::OpenCmd)
                    ==> (open_outs matches Some(ov) && {
                    &&& open_run_post(plan@[0].2@, ctx.registry, stagesv[0].span, Result::Ok(ov))
                    &&& ov@.len() == 1
                    &&& next@.len() + outputs@.len() == 1
                    &&& (outputs@.len() == 1 ==> outputs@[0] == ov@[0])
                    &&& (next@.len() == 1 ==> applied_rel(ov@[0], ctx.registry, next@[0]))
                }),
                (i == 1 && 2 <= n && ctx.registry.cmds@[plan@[0].0 as int].kind
                    == CommandKind::OpenCmd && ctx.registry.cmds@[plan@[1].0 as int].kind
                    == CommandKind::FromCsv) ==> (open_outs matches Some(ov) && {
                    &&& open_run_post(plan@[0].2@, ctx.registry, stagesv[0].span, Result::Ok(ov))
                    &&& ov@.len() == 1
                    &&& pre_stream.len() == 1
                    &&& applied_rel(ov@[0], ctx.registry, pre_stream[0])
                    &&& next@.len() + outputs@.len() == 1
                    &&& (outputs@.len() == 1 ==> (outputs@[0] matches ReturnValue::Val(nv)
                        && csv_applied(pre_stream[0], Result::Ok(nv))))
                    &&& (next@.len() == 1 ==> csv_applied(pre_stream[0], Result::Ok(next@[0])))
                }),
            decreases outputs.len(),
        {
            let rv = outputs.remove(0);
            match apply_return(rv, stage_span, ctx, host) {
                Err(e) => {
                    return Outcome::Error(e);
                },
                Ok(v) => {
                    next.push(v);
                },
            }
        }
        stream = next;
        i = i + 1;
    }
    proof {
        assert(plan_entry_ok(ctx.registry, stagesv[0], plan@[0].0, plan@[0].1, plan@[0].2));
    }
    let ghost stream_final = stream@;
    let out_final: Outcome;
    if stream.len() == 0 {
        out_final = Outcome::Success(nothing_value());
    } else if stream.len() == 1 {
        let v = stream.remove(0);
        proof {
            if n == 1 && ctx.registry.cmds@[plan@[0].0 as int].kind == CommandKind::OpenCmd {
                let ov = open_outs->Some_0;
                assert(open_run_post(plan@[0].2@, ctx.registry, stagesv[0].span, Result::Ok(ov)) && ov@.len() == 1
                    && applied_rel(ov@[0], ctx.registry, v));
            }
        }
        out_final = Outcome::Success(v);
    } else {
        out_final = Outcome::Success(
            UntaggedValue::table(stream).into_value(Tag::from_span(Span::unknown())),
        );
    }
    proof {
        if n == 1 {
            let k0 = plan@[0].0 as int;
            let f0 = plan@[0].1 as int;
            assert(stage_resolution(ctx.registry, stagesv[0]) == Some((k0, f0)));
            if ctx.registry.cmds@[k0].kind == CommandKind::OpenCmd {
                let b0 = plan@[0].2@;
                assert(bind_model(
                    ctx.registry.cmds@[k0].signature,
                    stagesv[0].span,
                    stagesv[0].tokens,
                    f0,
                ) == Result::<BoundV, BindFailV>::Ok(b0));
                let o = out_final;
                match o {
                    Outcome::Success(v) => {
                        let ov = open_outs->Some_0;
                        assert(open_run_post(b0, ctx.registry, stagesv[0].span, Result::Ok(ov)));
                        assert(ov@.len() == 1);
                        assert(applied_rel(ov@[0], ctx.registry, v));
                    },
                    _ => {},
                }
            }
            assert(single_stage_open_post(ctx.registry, stagesv[0], out_final));
        }
        if n == 2 {
            let k0 = plan@[0].0 as int;
            let f0 = plan@[0].1 as int;
            assert(plan_entry_ok(ctx.registry, stagesv[1], plan@[1].0, plan@[1].1, plan@[1].2));
            assert(stage_resolution(ctx.registry, stagesv[0]) == Some((k0, f0)));
            if ctx.registry.cmds@[k0].kind == CommandKind::OpenCmd
                && ctx.registry.cmds@[plan@[1].0 as int].kind == CommandKind::FromCsv {
                let b0 = plan@[0].2@;
                assert(bind_model(
                    ctx.registry.cmds@[k0].signature,
                    stagesv[0].span,
                    stagesv[0].tokens,
                    f0,
                ) == Result::<BoundV, BindFailV>::Ok(b0));
                let o = out_final;
                match o {
                    Outcome::Success(v) => {
                        let ov = open_outs->Some_0;
                        assert(open_run_post(b0, ctx.registry, stagesv[0].span, Result::Ok(ov)));
                        assert(ov@.len() == 1);
                        assert(stream_final.len() == 1 && v == stream_final[0]);
                        let v0 = choose|v0: Value|
                            #[trigger] applied_rel(ov@[0], ctx.registry, v0) && csv_applied(
                                v0,
                                Result::Ok(stream_final[0]),
                            );
                        assert(applied_rel(ov@[0], ctx.registry, v0) && csv_applied(
                            v0,
                            Result::Ok(v),
                        ));
                    },
                    _ => {},
                }
            }
            assert(open_csv_pipeline_post(ctx.registry, stagesv[0], stagesv[1], out_final));
        }
    }
    out_final
}

} // verus!
