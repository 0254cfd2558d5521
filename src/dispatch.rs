//! Turning resolved instructions into a run plan: one call on the input
//! actuator per instruction, with a fixed wait before each call and after
//! the last one.
use vstd::prelude::*;
use crate::keys::Key;
use crate::script::{
    ErrorModel, Instruction, InstructionModel, ScriptError, Verb, instructions_view,
    parse_script, parse_script_spec, resolve_all_spec, resolve_keys,
};

verus! {

/// The wait between two calls on the actuator, in milliseconds, unless a
/// run is planned with another one.
pub const STEP_DELAY_MS: u64 = 1000;

/// One primitive of the input actuator. Mouse buttons are the primary one.
#[derive(Debug)]
pub enum Command {
    MoveMouseTo { x: i32, y: i32 },
    MoveMouseBy { dx: i32, dy: i32 },
    ClickMouse,
    PressMouse,
    ReleaseMouse,
    TapKey(Key),
    PressKey(Key),
    ReleaseKey(Key),
    TypeText(String),
}

/// The mathematical value of a [`Command`].
pub enum CommandModel {
    MoveMouseTo { x: i32, y: i32 },
    MoveMouseBy { dx: i32, dy: i32 },
    ClickMouse,
    PressMouse,
    ReleaseMouse,
    TapKey(Key),
    PressKey(Key),
    ReleaseKey(Key),
    TypeText(Seq<char>),
}

impl View for Command {
    type V = CommandModel;

    open spec fn view(&self) -> CommandModel {
        match self {
            Command::MoveMouseTo { x, y } => CommandModel::MoveMouseTo { x: *x, y: *y },
            Command::MoveMouseBy { dx, dy } => CommandModel::MoveMouseBy { dx: *dx, dy: *dy },
            Command::ClickMouse => CommandModel::ClickMouse,
            Command::PressMouse => CommandModel::PressMouse,
            Command::ReleaseMouse => CommandModel::ReleaseMouse,
            Command::TapKey(k) => CommandModel::TapKey(*k),
            Command::PressKey(k) => CommandModel::PressKey(*k),
            Command::ReleaseKey(k) => CommandModel::ReleaseKey(*k),
            Command::TypeText(t) => CommandModel::TypeText(t@),
        }
    }
}

/// One step of a run: block for a while, or make one call.
#[derive(Debug)]
pub enum Step {
    Wait { millis: u64 },
    Call(Command),
}

/// The mathematical value of a [`Step`].
pub enum StepModel {
    Wait { millis: u64 },
    Call(CommandModel),
}

impl View for Step {
    type V = StepModel;

    open spec fn view(&self) -> StepModel {
        match self {
            Step::Wait { millis } => StepModel::Wait { millis: *millis },
            Step::Call(c) => StepModel::Call(c@),
        }
    }
}

pub open spec fn steps_view(v: Seq<Step>) -> Seq<StepModel> {
    Seq::new(v.len(), |k: int| v[k]@)
}

pub open spec fn plan_view(r: Result<Vec<Step>, ScriptError>) -> Result<Seq<StepModel>, ErrorModel> {
    match r {
        Ok(v) => Ok(steps_view(v@)),
        Err(e) => Err(e@),
    }
}

/// The call that carries out an instruction; a key instruction whose key is
/// not resolved has none.
pub open spec fn command_spec(i: InstructionModel) -> Result<CommandModel, ErrorModel> {
    match i {
        InstructionModel::MouseMoveTo { x, y } => Ok(CommandModel::MoveMouseTo { x, y }),
        InstructionModel::MouseMoveRelative { x, y } => Ok(
            CommandModel::MoveMouseBy { dx: x, dy: y },
        ),
        InstructionModel::MouseClick => Ok(CommandModel::ClickMouse),
        InstructionModel::MouseDown => Ok(CommandModel::PressMouse),
        InstructionModel::MouseUp => Ok(CommandModel::ReleaseMouse),
        InstructionModel::KeyClick { name, key } => match key {
            Some(k) => Ok(CommandModel::TapKey(k)),
            None => Err(ErrorModel::KeyResolution { verb: Verb::KeyClick, argument: name }),
        },
        InstructionModel::KeyDown { name, key } => match key {
            Some(k) => Ok(CommandModel::PressKey(k)),
            None => Err(ErrorModel::KeyResolution { verb: Verb::KeyDown, argument: name }),
        },
        InstructionModel::KeyUp { name, key } => match key {
            Some(k) => Ok(CommandModel::ReleaseKey(k)),
            None => Err(ErrorModel::KeyResolution { verb: Verb::KeyUp, argument: name }),
        },
        InstructionModel::KeySequence { text } => Ok(CommandModel::TypeText(text)),
    }
}

/// The plan for a list of instructions: a wait, then for each instruction
/// its call and a wait; the first instruction without a call stops it.
pub open spec fn schedule_spec(s: Seq<InstructionModel>, millis: u64) -> Result<
    Seq<StepModel>,
    ErrorModel,
>
    decreases s.len(),
{
    if s.len() == 0 {
        Ok(seq![StepModel::Wait { millis }])
    } else {
        match schedule_spec(s.drop_last(), millis) {
            Err(e) => Err(e),
            Ok(p) => match command_spec(s.last()) {
                Ok(c) => Ok(p.push(StepModel::Call(c)).push(StepModel::Wait { millis })),
                Err(e) => Err(e),
            },
        }
    }
}

/// `p` plans the run of `t`: a wait, then for each instruction in order its
/// call and a wait.
pub open spec fn is_plan_for(p: Seq<StepModel>, t: Seq<InstructionModel>, millis: u64) -> bool {
    &&& p.len() == 2 * t.len() + 1
    &&& forall|k: int| 0 <= k <= t.len() ==> #[trigger] p[2 * k] == (StepModel::Wait { millis })
    &&& forall|k: int|
        0 <= k < t.len() ==> #[trigger] p[2 * k + 1] == StepModel::Call(command_spec(t[k])->Ok_0)
}

/// Every instruction of `t` has a call.
pub open spec fn all_callable(t: Seq<InstructionModel>) -> bool {
    forall|k: int| 0 <= k < t.len() ==> #[trigger] command_spec(t[k]) is Ok
}

/// The plan for a script's text: parse, resolve keys, schedule.
pub open spec fn run_spec(text: Seq<char>, millis: u64) -> Result<Seq<StepModel>, ErrorModel> {
    match parse_script_spec(text) {
        Err(e) => Err(e),
        Ok(s) => match resolve_all_spec(s) {
            Err(e) => Err(e),
            Ok(t) => schedule_spec(t, millis),
        },
    }
}

proof fn lemma_schedule_error_persists(s: Seq<InstructionModel>, millis: u64, k: int)
    requires
        0 <= k <= s.len(),
        schedule_spec(s.take(k), millis) is Err,
    ensures
        schedule_spec(s, millis) == schedule_spec(s.take(k), millis),
    decreases s.len(),
{
    if k < s.len() {
        assert(s.drop_last().take(k) =~= s.take(k));
        lemma_schedule_error_persists(s.drop_last(), millis, k);
    } else {
        assert(s.take(k) =~= s);
    }
}

/// The call that carries out one instruction.
pub fn command_for(i: &Instruction) -> (r: Result<Command, ScriptError>)
    ensures
        match r {
            Ok(c) => command_spec(i@) == Ok::<CommandModel, ErrorModel>(c@),
            Err(e) => command_spec(i@) == Err::<CommandModel, ErrorModel>(e@),
        },
{
    match i {
        Instruction::MouseMoveTo { x, y } => Ok(Command::MoveMouseTo { x: *x, y: *y }),
        Instruction::MouseMoveRelative { x, y } => Ok(Command::MoveMouseBy { dx: *x, dy: *y }),
        Instruction::MouseClick => Ok(Command::ClickMouse),
        Instruction::MouseDown => Ok(Command::PressMouse),
        Instruction::MouseUp => Ok(Command::ReleaseMouse),
        Instruction::KeyClick { name, key } => match key {
            Some(k) => Ok(Command::TapKey(*k)),
            None => Err(ScriptError::KeyResolution { verb: Verb::KeyClick, argument: name.clone() }),
        },
        Instruction::KeyDown { name, key } => match key {
            Some(k) => Ok(Command::PressKey(*k)),
            None => Err(ScriptError::KeyResolution { verb: Verb::KeyDown, argument: name.clone() }),
        },
        Instruction::KeyUp { name, key } => match key {
            Some(k) => Ok(Command::ReleaseKey(*k)),
            None => Err(ScriptError::KeyResolution { verb: Verb::KeyUp, argument: name.clone() }),
        },
        Instruction::KeySequence { text } => Ok(Command::TypeText(text.clone())),
    }
}

/// Plans the run of a list of resolved instructions, with `millis` as the
/// wait before each call and after the last.
pub fn schedule(instrs: &Vec<Instruction>, millis: u64) -> (r: Result<Vec<Step>, ScriptError>)
    ensures
        plan_view(r) == schedule_spec(instructions_view(instrs@), millis),
{
    let ghost s = instructions_view(instrs@);
    let mut out: Vec<Step> = Vec::new();
    out.push(Step::Wait { millis });
    let mut i: usize = 0;
    assert(s.take(0) =~= Seq::<InstructionModel>::empty());
    assert(steps_view(out@) =~= seq![StepModel::Wait { millis }]);
    while i < instrs.len()
        invariant
            s == instructions_view(instrs@),
            i <= instrs@.len(),
            schedule_spec(s.take(i as int), millis) == Ok::<Seq<StepModel>, ErrorModel>(
                steps_view(out@),
            ),
        decreases instrs@.len() - i,
    {
        assert(s.take(i + 1).drop_last() =~= s.take(i as int));
        assert(s.take(i + 1).last() == instrs@[i as int]@);
        match command_for(&instrs[i]) {
            Ok(c) => {
                let ghost before = steps_view(out@);
                let ghost cv = c@;
                out.push(Step::Call(c));
                out.push(Step::Wait { millis });
                assert(steps_view(out@) =~= before.push(StepModel::Call(cv)).push(
                    StepModel::Wait { millis },
                ));
            },
            Err(e) => {
                proof {
                    lemma_schedule_error_persists(s, millis, i + 1);
                }
                return Err(e);
            },
        }
        i += 1;
    }
    assert(s.take(i as int) =~= s);
    Ok(out)
}

/// Parses a script, resolves its keys and plans its run; the first error
/// of any phase stops it, before any call is made.
pub fn prepare_run(text: &str, millis: u64) -> (r: Result<Vec<Step>, ScriptError>)
    ensures
        plan_view(r) == run_spec(text@, millis),
{
    let parsed = parse_script(text);
    match parsed {
        Err(e) => Err(e),
        Ok(s) => {
            let resolved = resolve_keys(&s);
            match resolved {
                Err(e) => Err(e),
                Ok(t) => schedule(&t, millis),
            }
        },
    }
}

} // verus!
