//! Script parsing: one instruction per non-blank line, then resolution of
//! the key arguments of key instructions.
use vstd::prelude::*;
use crate::keys::{Key, key_spec, lower_of, resolve_key};
use crate::number::{parse_i32, parse_i32_spec};
use crate::text::{
    chars_of, lines_of, range_equals, split_lines, strings_view, trim, trim_range, word_end,
    word_len, word_spans, words,
};

verus! {

/// The keyword that starts a script line.
#[derive(Clone, Copy, Debug, PartialEq, Eq, Structural)]
pub enum Verb {
    MouseMoveTo,
    MouseMoveRelative,
    MouseClick,
    MouseDown,
    MouseUp,
    KeyClick,
    KeyDown,
    KeyUp,
    KeySequence,
}

/// One parsed script line. Key instructions carry their argument as written
/// and, once resolved, the key it names.
#[derive(Debug)]
pub enum Instruction {
    MouseMoveTo { x: i32, y: i32 },
    MouseMoveRelative { x: i32, y: i32 },
    MouseClick,
    MouseDown,
    MouseUp,
    KeyClick { name: String, key: Option<Key> },
    KeyDown { name: String, key: Option<Key> },
    KeyUp { name: String, key: Option<Key> },
    KeySequence { text: String },
}

/// The mathematical value of an [`Instruction`].
pub enum InstructionModel {
    MouseMoveTo { x: i32, y: i32 },
    MouseMoveRelative { x: i32, y: i32 },
    MouseClick,
    MouseDown,
    MouseUp,
    KeyClick { name: Seq<char>, key: Option<Key> },
    KeyDown { name: Seq<char>, key: Option<Key> },
    KeyUp { name: Seq<char>, key: Option<Key> },
    KeySequence { text: Seq<char> },
}

impl View for Instruction {
    type V = InstructionModel;

    open spec fn view(&self) -> InstructionModel {
        match self {
            Instruction::MouseMoveTo { x, y } => InstructionModel::MouseMoveTo { x: *x, y: *y },
            Instruction::MouseMoveRelative { x, y } => InstructionModel::MouseMoveRelative {
                x: *x,
                y: *y,
            },
            Instruction::MouseClick => InstructionModel::MouseClick,
            Instruction::MouseDown => InstructionModel::MouseDown,
            Instruction::MouseUp => InstructionModel::MouseUp,
            Instruction::KeyClick { name, key } => InstructionModel::KeyClick {
                name: name@,
                key: *key,
            },
            Instruction::KeyDown { name, key } => InstructionModel::KeyDown {
                name: name@,
                key: *key,
            },
            Instruction::KeyUp { name, key } => InstructionModel::KeyUp { name: name@, key: *key },
            Instruction::KeySequence { text } => InstructionModel::KeySequence { text: text@ },
        }
    }
}

/// Why a script was refused.
#[derive(Debug)]
pub enum ScriptError {
    /// The verb was given the wrong number of arguments.
    Arity { verb: Verb, line: String },
    /// A movement argument is not an `i32`.
    Integer { verb: Verb, line: String },
    /// The first word of the line is no verb.
    UnrecognizedVerb { line: String },
    /// A key argument names no key.
    KeyResolution { verb: Verb, argument: String },
}

/// The mathematical value of a [`ScriptError`].
pub enum ErrorModel {
    Arity { verb: Verb, line: Seq<char> },
    Integer { verb: Verb, line: Seq<char> },
    UnrecognizedVerb { line: Seq<char> },
    KeyResolution { verb: Verb, argument: Seq<char> },
}

impl View for ScriptError {
    type V = ErrorModel;

    open spec fn view(&self) -> ErrorModel {
        match self {
            ScriptError::Arity { verb, line } => ErrorModel::Arity { verb: *verb, line: line@ },
            ScriptError::Integer { verb, line } => ErrorModel::Integer { verb: *verb, line: line@ },
            ScriptError::UnrecognizedVerb { line } => ErrorModel::UnrecognizedVerb { line: line@ },
            ScriptError::KeyResolution { verb, argument } => ErrorModel::KeyResolution {
                verb: *verb,
                argument: argument@,
            },
        }
    }
}

pub open spec fn instructions_view(v: Seq<Instruction>) -> Seq<InstructionModel> {
    Seq::new(v.len(), |k: int| v[k]@)
}

pub open spec fn outcome_view(r: Result<Vec<Instruction>, ScriptError>) -> Result<
    Seq<InstructionModel>,
    ErrorModel,
> {
    match r {
        Ok(v) => Ok(instructions_view(v@)),
        Err(e) => Err(e@),
    }
}

pub open spec fn line_outcome_view(r: Option<Result<Instruction, ScriptError>>) -> Option<
    Result<InstructionModel, ErrorModel>,
> {
    match r {
        None => None,
        Some(Ok(i)) => Some(Ok(i@)),
        Some(Err(e)) => Some(Err(e@)),
    }
}

/// The verb that a word spells, if any.
pub open spec fn verb_of(w: Seq<char>) -> Option<Verb> {
    if w == "mouse_move_to"@ {
        Some(Verb::MouseMoveTo)
    } else if w == "mouse_move_relative"@ {
        Some(Verb::MouseMoveRelative)
    } else if w == "mouse_click"@ {
        Some(Verb::MouseClick)
    } else if w == "mouse_down"@ {
        Some(Verb::MouseDown)
    } else if w == "mouse_up"@ {
        Some(Verb::MouseUp)
    } else if w == "key_click"@ {
        Some(Verb::KeyClick)
    } else if w == "key_down"@ {
        Some(Verb::KeyDown)
    } else if w == "key_up"@ {
        Some(Verb::KeyUp)
    } else if w == "key_sequence"@ {
        Some(Verb::KeySequence)
    } else {
        None
    }
}

/// Whether a line of `n` words, the verb included, has the verb's arity.
pub open spec fn arity_spec(verb: Verb, n: nat) -> bool {
    match verb {
        Verb::MouseMoveTo | Verb::MouseMoveRelative => n == 3,
        Verb::MouseClick | Verb::MouseDown | Verb::MouseUp => n == 1,
        Verb::KeyClick | Verb::KeyDown | Verb::KeyUp => n == 2,
        Verb::KeySequence => n >= 1,
    }
}

/// The instruction that a line with a known verb and a fitting arity gives:
/// `t` is the trimmed line, `ws` its words.
pub open spec fn build_spec(verb: Verb, t: Seq<char>, ws: Seq<Seq<char>>) -> Result<
    InstructionModel,
    ErrorModel,
> {
    match verb {
        Verb::MouseMoveTo | Verb::MouseMoveRelative => {
            let x = parse_i32_spec(ws[1]);
            let y = parse_i32_spec(ws[2]);
            if x is Some && y is Some {
                if verb == Verb::MouseMoveTo {
                    Ok(InstructionModel::MouseMoveTo { x: x->0, y: y->0 })
                } else {
                    Ok(InstructionModel::MouseMoveRelative { x: x->0, y: y->0 })
                }
            } else {
                Err(ErrorModel::Integer { verb, line: t })
            }
        },
        Verb::MouseClick => Ok(InstructionModel::MouseClick),
        Verb::MouseDown => Ok(InstructionModel::MouseDown),
        Verb::MouseUp => Ok(InstructionModel::MouseUp),
        Verb::KeyClick => Ok(InstructionModel::KeyClick { name: ws[1], key: None }),
        Verb::KeyDown => Ok(InstructionModel::KeyDown { name: ws[1], key: None }),
        Verb::KeyUp => Ok(InstructionModel::KeyUp { name: ws[1], key: None }),
        Verb::KeySequence => Ok(
            InstructionModel::KeySequence { text: trim(t.skip(word_len(t) as int)) },
        ),
    }
}

/// What one line gives: nothing when it is blank, else an instruction or
/// the reason it is refused.
pub open spec fn parse_line_spec(line: Seq<char>) -> Option<Result<InstructionModel, ErrorModel>> {
    let t = trim(line);
    let ws = words(t);
    if ws.len() == 0 {
        None
    } else {
        match verb_of(ws[0]) {
            None => Some(Err(ErrorModel::UnrecognizedVerb { line: t })),
            Some(verb) => if arity_spec(verb, ws.len()) {
                Some(build_spec(verb, t, ws))
            } else {
                Some(Err(ErrorModel::Arity { verb, line: t }))
            },
        }
    }
}

/// What a list of lines gives: the instructions of its non-blank lines in
/// order, or the first line's error.
pub open spec fn parse_lines_spec(ls: Seq<Seq<char>>) -> Result<Seq<InstructionModel>, ErrorModel>
    decreases ls.len(),
{
    if ls.len() == 0 {
        Ok(Seq::empty())
    } else {
        match parse_lines_spec(ls.drop_last()) {
            Err(e) => Err(e),
            Ok(v) => match parse_line_spec(ls.last()) {
                None => Ok(v),
                Some(Ok(i)) => Ok(v.push(i)),
                Some(Err(e)) => Err(e),
            },
        }
    }
}

/// What a script's text gives.
pub open spec fn parse_script_spec(text: Seq<char>) -> Result<Seq<InstructionModel>, ErrorModel> {
    parse_lines_spec(split_lines(text))
}

/// The verb that the range `lo..hi` of `cs` spells, if any.
pub fn classify_verb(cs: &Vec<char>, lo: usize, hi: usize) -> (r: Option<Verb>)
    requires
        lo <= hi <= cs@.len(),
    ensures
        r == verb_of(cs@.subrange(lo as int, hi as int)),
{
    if range_equals(cs, lo, hi, "mouse_move_to") {
        Some(Verb::MouseMoveTo)
    } else if range_equals(cs, lo, hi, "mouse_move_relative") {
        Some(Verb::MouseMoveRelative)
    } else if range_equals(cs, lo, hi, "mouse_click") {
        Some(Verb::MouseClick)
    } else if range_equals(cs, lo, hi, "mouse_down") {
        Some(Verb::MouseDown)
    } else if range_equals(cs, lo, hi, "mouse_up") {
        Some(Verb::MouseUp)
    } else if range_equals(cs, lo, hi, "key_click") {
        Some(Verb::KeyClick)
    } else if range_equals(cs, lo, hi, "key_down") {
        Some(Verb::KeyDown)
    } else if range_equals(cs, lo, hi, "key_up") {
        Some(Verb::KeyUp)
    } else if range_equals(cs, lo, hi, "key_sequence") {
        Some(Verb::KeySequence)
    } else {
        None
    }
}

/// Whether `n` words, the verb included, fit the verb.
pub fn arity_fits(verb: Verb, n: usize) -> (r: bool)
    ensures
        r == arity_spec(verb, n as nat),
{
    match verb {
        Verb::MouseMoveTo | Verb::MouseMoveRelative => n == 3,
        Verb::MouseClick | Verb::MouseDown | Verb::MouseUp => n == 1,
        Verb::KeyClick | Verb::KeyDown | Verb::KeyUp => n == 2,
        Verb::KeySequence => n >= 1,
    }
}

/// Parses one script line.
pub fn parse_line(line: &str) -> (r: Option<Result<Instruction, ScriptError>>)
    ensures
        line_outcome_view(r) == parse_line_spec(line@),
{
    let cs = chars_of(line);
    let n = cs.len();
    assert(cs@.subrange(0, n as int) =~= line@);
    let (a, b) = trim_range(&cs, 0, n);
    let spans = word_spans(&cs, a, b);
    let ghost t = cs@.subrange(a as int, b as int);
    let ghost ws = words(t);
    assert(ws.len() == spans@.len());
    if spans.len() == 0 {
        return None;
    }
    let whole = String::from_str(line.substring_char(a, b));
    let (v0, v1) = spans[0];
    assert(ws[0] == cs@.subrange(v0 as int, v1 as int));
    let verb = match classify_verb(&cs, v0, v1) {
        None => {
            return Some(Err(ScriptError::UnrecognizedVerb { line: whole }));
        },
        Some(v) => v,
    };
    if !arity_fits(verb, spans.len()) {
        return Some(Err(ScriptError::Arity { verb, line: whole }));
    }
    let r = match verb {
        Verb::MouseMoveTo | Verb::MouseMoveRelative => {
            let (s1, e1) = spans[1];
            let (s2, e2) = spans[2];
            assert(ws[1] == cs@.subrange(s1 as int, e1 as int));
            assert(ws[2] == cs@.subrange(s2 as int, e2 as int));
            match (parse_i32(&cs, s1, e1), parse_i32(&cs, s2, e2)) {
                (Some(x), Some(y)) => if verb == Verb::MouseMoveTo {
                    Ok(Instruction::MouseMoveTo { x, y })
                } else {
                    Ok(Instruction::MouseMoveRelative { x, y })
                },
                _ => Err(ScriptError::Integer { verb, line: whole }),
            }
        },
        Verb::MouseClick => Ok(Instruction::MouseClick),
        Verb::MouseDown => Ok(Instruction::MouseDown),
        Verb::MouseUp => Ok(Instruction::MouseUp),
        Verb::KeyClick | Verb::KeyDown | Verb::KeyUp => {
            let (s1, e1) = spans[1];
            assert(ws[1] == cs@.subrange(s1 as int, e1 as int));
            let name = String::from_str(line.substring_char(s1, e1));
            if verb == Verb::KeyClick {
                Ok(Instruction::KeyClick { name, key: None })
            } else if verb == Verb::KeyDown {
                Ok(Instruction::KeyDown { name, key: None })
            } else {
                Ok(Instruction::KeyUp { name, key: None })
            }
        },
        Verb::KeySequence => {
            let e = word_end(&cs, a, b);
            let (c, d) = trim_range(&cs, e, b);
            assert(t.skip(e - a) =~= cs@.subrange(e as int, b as int));
            let text = String::from_str(line.substring_char(c, d));
            Ok(Instruction::KeySequence { text })
        },
    };
    Some(r)
}

/// What resolving the key of one instruction gives: key instructions get
/// the key that their argument names; the others are kept as they are.
pub open spec fn resolve_spec(i: InstructionModel) -> Result<InstructionModel, ErrorModel> {
    match i {
        InstructionModel::KeyClick { name, key: _ } => match key_spec(lower_of(name), name) {
            Some(k) => Ok(InstructionModel::KeyClick { name, key: Some(k) }),
            None => Err(ErrorModel::KeyResolution { verb: Verb::KeyClick, argument: name }),
        },
        InstructionModel::KeyDown { name, key: _ } => match key_spec(lower_of(name), name) {
            Some(k) => Ok(InstructionModel::KeyDown { name, key: Some(k) }),
            None => Err(ErrorModel::KeyResolution { verb: Verb::KeyDown, argument: name }),
        },
        InstructionModel::KeyUp { name, key: _ } => match key_spec(lower_of(name), name) {
            Some(k) => Ok(InstructionModel::KeyUp { name, key: Some(k) }),
            None => Err(ErrorModel::KeyResolution { verb: Verb::KeyUp, argument: name }),
        },
        _ => Ok(i),
    }
}

/// What resolving a list of instructions gives: each resolved in order, or
/// the first error.
pub open spec fn resolve_all_spec(s: Seq<InstructionModel>) -> Result<
    Seq<InstructionModel>,
    ErrorModel,
>
    decreases s.len(),
{
    if s.len() == 0 {
        Ok(Seq::empty())
    } else {
        match resolve_all_spec(s.drop_last()) {
            Err(e) => Err(e),
            Ok(v) => match resolve_spec(s.last()) {
                Ok(i) => Ok(v.push(i)),
                Err(e) => Err(e),
            },
        }
    }
}

proof fn lemma_parse_error_persists(ls: Seq<Seq<char>>, k: int)
    requires
        0 <= k <= ls.len(),
        parse_lines_spec(ls.take(k)) is Err,
    ensures
        parse_lines_spec(ls) == parse_lines_spec(ls.take(k)),
    decreases ls.len(),
{
    if k < ls.len() {
        assert(ls.drop_last().take(k) =~= ls.take(k));
        lemma_parse_error_persists(ls.drop_last(), k);
    } else {
        assert(ls.take(k) =~= ls);
    }
}

proof fn lemma_resolve_error_persists(s: Seq<InstructionModel>, k: int)
    requires
        0 <= k <= s.len(),
        resolve_all_spec(s.take(k)) is Err,
    ensures
        resolve_all_spec(s) == resolve_all_spec(s.take(k)),
    decreases s.len(),
{
    if k < s.len() {
        assert(s.drop_last().take(k) =~= s.take(k));
        lemma_resolve_error_persists(s.drop_last(), k);
    } else {
        assert(s.take(k) =~= s);
    }
}

/// Parses a list of lines into the instructions of its non-blank lines;
/// the first malformed line stops it.
pub fn parse_lines(lines: &Vec<String>) -> (r: Result<Vec<Instruction>, ScriptError>)
    ensures
        outcome_view(r) == parse_lines_spec(strings_view(lines@)),
{
    let ghost ls = strings_view(lines@);
    let mut out: Vec<Instruction> = Vec::new();
    let mut i: usize = 0;
    assert(ls.take(0) =~= Seq::<Seq<char>>::empty());
    assert(instructions_view(out@) =~= Seq::<InstructionModel>::empty());
    while i < lines.len()
        invariant
            ls == strings_view(lines@),
            i <= lines@.len(),
            parse_lines_spec(ls.take(i as int)) == Ok::<Seq<InstructionModel>, ErrorModel>(
                instructions_view(out@),
            ),
        decreases lines@.len() - i,
    {
        assert(ls.take(i + 1).drop_last() =~= ls.take(i as int));
        assert(ls.take(i + 1).last() == lines@[i as int]@);
        match parse_line(lines[i].as_str()) {
            None => {},
            Some(Ok(ins)) => {
                let ghost before = instructions_view(out@);
                out.push(ins);
                assert(instructions_view(out@) =~= before.push(ins@));
            },
            Some(Err(e)) => {
                proof {
                    lemma_parse_error_persists(ls, i + 1);
                }
                return Err(e);
            },
        }
        i += 1;
    }
    assert(ls.take(i as int) =~= ls);
    Ok(out)
}

/// Parses the text of a script, line by line.
pub fn parse_script(text: &str) -> (r: Result<Vec<Instruction>, ScriptError>)
    ensures
        outcome_view(r) == parse_script_spec(text@),
{
    let lines = lines_of(text);
    parse_lines(&lines)
}

/// Resolves the key of one instruction.
pub fn resolve_instruction(i: &Instruction) -> (r: Result<Instruction, ScriptError>)
    ensures
        match r {
            Ok(v) => resolve_spec(i@) == Ok::<InstructionModel, ErrorModel>(v@),
            Err(e) => resolve_spec(i@) == Err::<InstructionModel, ErrorModel>(e@),
        },
{
    match i {
        Instruction::KeyClick { name, key: _ } => match resolve_key(name.as_str()) {
            Some(k) => Ok(Instruction::KeyClick { name: name.clone(), key: Some(k) }),
            None => Err(ScriptError::KeyResolution { verb: Verb::KeyClick, argument: name.clone() }),
        },
        Instruction::KeyDown { name, key: _ } => match resolve_key(name.as_str()) {
            Some(k) => Ok(Instruction::KeyDown { name: name.clone(), key: Some(k) }),
            None => Err(ScriptError::KeyResolution { verb: Verb::KeyDown, argument: name.clone() }),
        },
        Instruction::KeyUp { name, key: _ } => match resolve_key(name.as_str()) {
            Some(k) => Ok(Instruction::KeyUp { name: name.clone(), key: Some(k) }),
            None => Err(ScriptError::KeyResolution { verb: Verb::KeyUp, argument: name.clone() }),
        },
        Instruction::MouseMoveTo { x, y } => Ok(Instruction::MouseMoveTo { x: *x, y: *y }),
        Instruction::MouseMoveRelative { x, y } => Ok(
            Instruction::MouseMoveRelative { x: *x, y: *y },
        ),
        Instruction::MouseClick => Ok(Instruction::MouseClick),
        Instruction::MouseDown => Ok(Instruction::MouseDown),
        Instruction::MouseUp => Ok(Instruction::MouseUp),
        Instruction::KeySequence { text } => Ok(Instruction::KeySequence { text: text.clone() }),
    }
}

/// Resolves the keys of all key instructions, in order; the first argument
/// that names no key stops it.
pub fn resolve_keys(instrs: &Vec<Instruction>) -> (r: Result<Vec<Instruction>, ScriptError>)
    ensures
        outcome_view(r) == resolve_all_spec(instructions_view(instrs@)),
{
    let ghost s = instructions_view(instrs@);
    let mut out: Vec<Instruction> = Vec::new();
    let mut i: usize = 0;
    assert(s.take(0) =~= Seq::<InstructionModel>::empty());
    assert(instructions_view(out@) =~= Seq::<InstructionModel>::empty());
    while i < instrs.len()
        invariant
            s == instructions_view(instrs@),
            i <= instrs@.len(),
            resolve_all_spec(s.take(i as int)) == Ok::<Seq<InstructionModel>, ErrorModel>(
                instructions_view(out@),
            ),
        decreases instrs@.len() - i,
    {
        assert(s.take(i + 1).drop_last() =~= s.take(i as int));
        assert(s.take(i + 1).last() == instrs@[i as int]@);
        match resolve_instruction(&instrs[i]) {
            Ok(ins) => {
                let ghost before = instructions_view(out@);
                out.push(ins);
                assert(instructions_view(out@) =~= before.push(ins@));
            },
            Err(e) => {
                proof {
                    lemma_resolve_error_persists(s, i + 1);
                }
                return Err(e);
            },
        }
        i += 1;
    }
    assert(s.take(i as int) =~= s);
    Ok(out)
}

} // verus!
