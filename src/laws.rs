//! Properties that hold of every script: what blank lines do, how many
//! instructions a script gives, and the shape of a planned run.
use vstd::prelude::*;
use crate::dispatch::{StepModel, all_callable, command_spec, is_plan_for, run_spec, schedule_spec};
use crate::script::{
    InstructionModel, parse_line_spec, parse_lines_spec, parse_script_spec, resolve_all_spec,
    resolve_spec,
};
use crate::text::{is_ws, split_lines, trim, trim_end, trim_start, words};

verus! {

/// A line made of white space only, or empty.
pub open spec fn is_blank(l: Seq<char>) -> bool {
    forall|i: int| 0 <= i < l.len() ==> is_ws(#[trigger] l[i])
}

/// How many lines of `ls` are not blank.
pub open spec fn nonblank_count(ls: Seq<Seq<char>>) -> nat
    decreases ls.len(),
{
    if ls.len() == 0 {
        0
    } else {
        nonblank_count(ls.drop_last()) + if is_blank(ls.last()) {
            0nat
        } else {
            1nat
        }
    }
}

proof fn lemma_words_empty(s: Seq<char>)
    ensures
        words(s).len() == 0 <==> is_blank(s),
    decreases s.len(),
{
    if s.len() > 0 {
        let t = s.drop_first();
        lemma_words_empty(t);
        if is_ws(s[0]) {
            if is_blank(t) {
                assert forall|i: int| 0 <= i < s.len() implies is_ws(#[trigger] s[i]) by {
                    if i > 0 {
                        assert(s[i] == t[i - 1]);
                    }
                }
            }
            if is_blank(s) {
                assert forall|i: int| 0 <= i < t.len() implies is_ws(#[trigger] t[i]) by {
                    assert(t[i] == s[i + 1]);
                }
            }
        } else {
            assert(!is_ws(s[0]));
        }
    }
}

proof fn lemma_trim_start_blank(s: Seq<char>)
    ensures
        is_blank(trim_start(s)) <==> is_blank(s),
    decreases s.len(),
{
    if s.len() > 0 && is_ws(s[0]) {
        let t = s.drop_first();
        lemma_trim_start_blank(t);
        if is_blank(t) {
            assert forall|i: int| 0 <= i < s.len() implies is_ws(#[trigger] s[i]) by {
                if i > 0 {
                    assert(s[i] == t[i - 1]);
                }
            }
        }
        if is_blank(s) {
            assert forall|i: int| 0 <= i < t.len() implies is_ws(#[trigger] t[i]) by {
                assert(t[i] == s[i + 1]);
            }
        }
    }
}

proof fn lemma_trim_end_blank(s: Seq<char>)
    ensures
        is_blank(trim_end(s)) <==> is_blank(s),
    decreases s.len(),
{
    if s.len() > 0 && is_ws(s.last()) {
        let t = s.drop_last();
        lemma_trim_end_blank(t);
        if is_blank(t) {
            assert forall|i: int| 0 <= i < s.len() implies is_ws(#[trigger] s[i]) by {
                if i < s.len() - 1 {
                    assert(s[i] == t[i]);
                }
            }
        }
        if is_blank(s) {
            assert forall|i: int| 0 <= i < t.len() implies is_ws(#[trigger] t[i]) by {
                assert(t[i] == s[i]);
            }
        }
    }
}

/// A line gives no instruction, and no error, exactly when it is blank.
pub proof fn lemma_blank_line_gives_nothing(l: Seq<char>)
    ensures
        parse_line_spec(l) is None <==> is_blank(l),
{
    lemma_trim_start_blank(l);
    lemma_trim_end_blank(trim_start(l));
    lemma_words_empty(trim(l));
}

/// Inserting a blank line anywhere in a script changes neither its
/// instructions nor its error.
pub proof fn lemma_blank_line_ignored(ls: Seq<Seq<char>>, i: int, b: Seq<char>)
    requires
        is_blank(b),
        0 <= i <= ls.len(),
    ensures
        parse_lines_spec(ls.insert(i, b)) == parse_lines_spec(ls),
    decreases ls.len(),
{
    lemma_blank_line_gives_nothing(b);
    let m = ls.insert(i, b);
    if i == ls.len() {
        assert(m.drop_last() =~= ls);
    } else {
        lemma_blank_line_ignored(ls.drop_last(), i, b);
        assert(m.drop_last() =~= ls.drop_last().insert(i, b));
        assert(m.last() == ls.last());
    }
}

/// A script that parses gives one instruction per non-blank line.
pub proof fn lemma_instruction_count(ls: Seq<Seq<char>>)
    requires
        parse_lines_spec(ls) is Ok,
    ensures
        (parse_lines_spec(ls)->Ok_0).len() == nonblank_count(ls),
    decreases ls.len(),
{
    if ls.len() > 0 {
        lemma_instruction_count(ls.drop_last());
        lemma_blank_line_gives_nothing(ls.last());
    }
}

/// Parsing depends on the text alone: equal texts give equal instructions
/// or equal errors, and equal run plans.
pub proof fn lemma_parse_deterministic(a: Seq<char>, b: Seq<char>, millis: u64)
    requires
        a == b,
    ensures
        parse_script_spec(a) == parse_script_spec(b),
        run_spec(a, millis) == run_spec(b, millis),
{
}

/// Resolution keeps the number and order of instructions, and leaves every
/// instruction with a call.
pub proof fn lemma_resolve_shape(s: Seq<InstructionModel>)
    requires
        resolve_all_spec(s) is Ok,
    ensures
        (resolve_all_spec(s)->Ok_0).len() == s.len(),
        forall|k: int|
            0 <= k < s.len() ==> (resolve_all_spec(s)->Ok_0)[k] == resolve_spec(s[k])->Ok_0
                && #[trigger] command_spec((resolve_all_spec(s)->Ok_0)[k]) is Ok,
    decreases s.len(),
{
    if s.len() > 0 {
        lemma_resolve_shape(s.drop_last());
        let t = resolve_all_spec(s)->Ok_0;
        let q = resolve_all_spec(s.drop_last())->Ok_0;
        assert forall|k: int| 0 <= k < s.len() implies t[k] == resolve_spec(s[k])->Ok_0
            && #[trigger] command_spec(t[k]) is Ok by {
            if k < s.len() - 1 {
                assert(t[k] == q[k]);
                assert(s[k] == s.drop_last()[k]);
            }
        }
    }
}

/// A list of instructions that all have a call is planned as a wait, then
/// each call in order followed by a wait.
pub proof fn lemma_plan_shape(s: Seq<InstructionModel>, millis: u64)
    requires
        all_callable(s),
    ensures
        schedule_spec(s, millis) is Ok,
        is_plan_for(schedule_spec(s, millis)->Ok_0, s, millis),
    decreases s.len(),
{
    if s.len() > 0 {
        let d = s.drop_last();
        assert forall|k: int| 0 <= k < d.len() implies #[trigger] command_spec(d[k]) is Ok by {
            assert(d[k] == s[k]);
            assert(command_spec(s[k]) is Ok);
        }
        lemma_plan_shape(d, millis);
        assert(command_spec(s[s.len() - 1]) is Ok);
        let p = schedule_spec(s, millis)->Ok_0;
        let q = schedule_spec(d, millis)->Ok_0;
        assert forall|k: int| 0 <= k <= s.len() implies #[trigger] p[2 * k] == (StepModel::Wait {
            millis,
        }) by {
            if k < s.len() {
                assert(p[2 * k] == q[2 * k]);
            }
        }
        assert forall|k: int| 0 <= k < s.len() implies #[trigger] p[2 * k + 1] == StepModel::Call(
            command_spec(s[k])->Ok_0,
        ) by {
            if k < s.len() - 1 {
                assert(p[2 * k + 1] == q[2 * k + 1]);
                assert(d[k] == s[k]);
            }
        }
    } else {
        assert(schedule_spec(s, millis)->Ok_0 =~= seq![StepModel::Wait { millis }]);
    }
}

/// The instructions of a script that parses, with their keys resolved.
pub open spec fn resolved_script(text: Seq<char>) -> Seq<InstructionModel> {
    resolve_all_spec(parse_script_spec(text)->Ok_0)->Ok_0
}

/// A script whose lines all parse and whose keys all resolve is run as one
/// wait, then, for each non-blank line in file order, its call followed by
/// a wait: as many calls as non-blank lines, each after a wait.
pub proof fn lemma_run_shape(text: Seq<char>, millis: u64)
    requires
        parse_script_spec(text) is Ok,
        resolve_all_spec(parse_script_spec(text)->Ok_0) is Ok,
    ensures
        run_spec(text, millis) is Ok,
        resolved_script(text).len() == nonblank_count(split_lines(text)),
        is_plan_for(run_spec(text, millis)->Ok_0, resolved_script(text), millis),
{
    let s = parse_script_spec(text)->Ok_0;
    lemma_instruction_count(split_lines(text));
    lemma_resolve_shape(s);
    let t = resolve_all_spec(s)->Ok_0;
    assert forall|k: int| 0 <= k < t.len() implies #[trigger] command_spec(t[k]) is Ok by {
        assert(command_spec((resolve_all_spec(s)->Ok_0)[k]) is Ok);
    }
    lemma_plan_shape(t, millis);
}

} // verus!
