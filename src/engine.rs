//! The template language: a parser from lines to a tree of literal lines and
//! conditional blocks, a context of variables and flags, and a renderer.
use vstd::prelude::*;
use crate::text::{
    contains, from_chars, lemma_replace_absent, lines_of, replace_all, replace_chars,
    split_lines, split_words, to_chars, views, words,
};

verus! {

/// One piece of a parsed template.
pub enum TemplatePart {
    Line(String),
    Conditional {
        condition: String,
        if_true: Box<Vec<TemplatePart>>,
        if_false: Box<Vec<TemplatePart>>,
    },
}

/// The mathematical form of a template part.
pub enum Part {
    Line(Seq<char>),
    Conditional(Seq<char>, Seq<Part>, Seq<Part>),
}

/// The mathematical form of a sequence of template parts.
pub open spec fn parts_model(s: Seq<TemplatePart>) -> Seq<Part>
    decreases s,
{
    if s.len() == 0 {
        seq![]
    } else {
        let m = match s.last() {
            TemplatePart::Line(t) => Part::Line(t@),
            TemplatePart::Conditional { condition, if_true, if_false } => Part::Conditional(
                condition@,
                parts_model((*if_true)@),
                parts_model((*if_false)@),
            ),
        };
        parts_model(s.drop_last()).push(m)
    }
}

/// The mathematical form of one template part.
pub open spec fn part_model(p: TemplatePart) -> Part {
    match p {
        TemplatePart::Line(t) => Part::Line(t@),
        TemplatePart::Conditional { condition, if_true, if_false } => Part::Conditional(
            condition@,
            parts_model((*if_true)@),
            parts_model((*if_false)@),
        ),
    }
}

proof fn lemma_parts_model_push(s: Seq<TemplatePart>, p: TemplatePart)
    ensures
        parts_model(s.push(p)) == parts_model(s).push(part_model(p)),
{
    assert(s.push(p).drop_last() =~= s);
}

/// What kind of mistake a template holds.
#[derive(PartialEq, Eq, Debug, Clone, Copy, Structural)]
pub enum ParseErrorKind {
    /// A directive line whose first word is not `if`, `else` or `end`.
    UnknownCommand,
    /// An `if` directive without a flag name.
    MissingCondition,
    /// An `else` outside of any `if` block.
    ElseAtTopLevel,
    /// An `end` outside of any `if` block.
    EndAtTopLevel,
    /// An `if` block still open at the end of the input.
    UnterminatedIf,
}

/// A template that could not be parsed: the kind of mistake, the 1-based line
/// it stands on, and the directive word found there (empty where none was).
#[derive(Debug)]
pub struct ParseError {
    pub kind: ParseErrorKind,
    pub line: usize,
    pub command: String,
}

/// The mathematical form of a parse error.
pub struct Failure {
    pub kind: ParseErrorKind,
    pub line: nat,
    pub command: Seq<char>,
}

impl View for ParseError {
    type V = Failure;

    open spec fn view(&self) -> Failure {
        Failure { kind: self.kind, line: self.line as nat, command: self.command@ }
    }
}

/// A block under construction while parsing.
struct Frame {
    true_parts: Vec<TemplatePart>,
    false_parts: Vec<TemplatePart>,
    condition: Option<String>,
    in_else: bool,
}

/// The mathematical form of a block under construction.
pub struct FrameModel {
    pub true_parts: Seq<Part>,
    pub false_parts: Seq<Part>,
    pub condition: Option<Seq<char>>,
    pub in_else: bool,
}

spec fn frame_model(f: Frame) -> FrameModel {
    FrameModel {
        true_parts: parts_model(f.true_parts@),
        false_parts: parts_model(f.false_parts@),
        condition: match f.condition {
            Some(c) => Some(c@),
            None => None,
        },
        in_else: f.in_else,
    }
}

spec fn frames_model(s: Seq<Frame>) -> Seq<FrameModel> {
    s.map_values(|f: Frame| frame_model(f))
}

impl Frame {
    fn new() -> (r: Frame)
        ensures
            frame_model(r) == root_frame(),
    {
        Frame { true_parts: Vec::new(), false_parts: Vec::new(), condition: None, in_else: false }
    }

    fn current_parts(&mut self) -> (r: &mut Vec<TemplatePart>)
        ensures
            *r == if old(self).in_else {
                old(self).false_parts
            } else {
                old(self).true_parts
            },
            final(self).in_else == old(self).in_else,
            final(self).condition == old(self).condition,
            old(self).in_else ==> final(self).false_parts == *final(r) && final(self).true_parts
                == old(self).true_parts,
            !old(self).in_else ==> final(self).true_parts == *final(r) && final(self).false_parts
                == old(self).false_parts,
    {
        if self.in_else {
            &mut self.false_parts
        } else {
            &mut self.true_parts
        }
    }
}

/// The frame that stands for the top level of a template.
pub open spec fn root_frame() -> FrameModel {
    FrameModel { true_parts: seq![], false_parts: seq![], condition: None, in_else: false }
}

/// Whether a line is a directive: it starts with `//%` or `#%`.
pub open spec fn is_directive(l: Seq<char>) -> bool {
    (l.len() >= 3 && l[0] == '/' && l[1] == '/' && l[2] == '%') || (l.len() >= 2 && l[0] == '#'
        && l[1] == '%')
}

/// The words of a directive line after its marker word.
pub open spec fn directive_args(l: Seq<char>) -> Seq<Seq<char>> {
    let w = words(l);
    if w.len() == 0 {
        seq![]
    } else {
        w.drop_first()
    }
}

/// Appends a part to the active branch of the innermost frame.
pub open spec fn add_part(frames: Seq<FrameModel>, p: Part) -> Seq<FrameModel> {
    let f = frames.last();
    frames.update(
        frames.len() - 1,
        if f.in_else {
            FrameModel { false_parts: f.false_parts.push(p), ..f }
        } else {
            FrameModel { true_parts: f.true_parts.push(p), ..f }
        },
    )
}

/// The effect of line number `n` (1-based), holding `l`, on the open frames.
pub open spec fn step(frames: Seq<FrameModel>, l: Seq<char>, n: nat) -> Result<
    Seq<FrameModel>,
    Failure,
> {
    if !is_directive(l) {
        Ok(add_part(frames, Part::Line(l)))
    } else {
        let args = directive_args(l);
        if args.len() == 0 {
            Err(Failure { kind: ParseErrorKind::UnknownCommand, line: n, command: seq![] })
        } else if args[0] == seq!['i', 'f'] {
            if args.len() < 2 {
                Err(Failure { kind: ParseErrorKind::MissingCondition, line: n, command: args[0] })
            } else {
                Ok(
                    frames.push(
                        FrameModel {
                            true_parts: seq![],
                            false_parts: seq![],
                            condition: Some(args[1]),
                            in_else: false,
                        },
                    ),
                )
            }
        } else if args[0] == seq!['e', 'l', 's', 'e'] {
            if frames.last().condition is None {
                Err(Failure { kind: ParseErrorKind::ElseAtTopLevel, line: n, command: args[0] })
            } else {
                Ok(frames.update(frames.len() - 1, FrameModel { in_else: true, ..frames.last() }))
            }
        } else if args[0] == seq!['e', 'n', 'd'] {
            if frames.len() <= 1 {
                Err(Failure { kind: ParseErrorKind::EndAtTopLevel, line: n, command: args[0] })
            } else {
                let f = frames.last();
                let c = match f.condition {
                    Some(c) => c,
                    None => seq![],
                };
                Ok(add_part(frames.drop_last(), Part::Conditional(c, f.true_parts, f.false_parts)))
            }
        } else {
            Err(Failure { kind: ParseErrorKind::UnknownCommand, line: n, command: args[0] })
        }
    }
}

/// The open frames after the given lines, or the first failure.
pub open spec fn run(lines: Seq<Seq<char>>) -> Result<Seq<FrameModel>, Failure>
    decreases lines.len(),
{
    if lines.len() == 0 {
        Ok(seq![root_frame()])
    } else {
        match run(lines.drop_last()) {
            Ok(frames) => step(frames, lines.last(), lines.len()),
            Err(e) => Err(e),
        }
    }
}

proof fn lemma_run_failure_stays(ls: Seq<Seq<char>>, k: int)
    requires
        0 <= k <= ls.len(),
        run(ls.subrange(0, k)) is Err,
    ensures
        run(ls) == run(ls.subrange(0, k)),
        parse(ls) == Err::<Seq<Part>, Failure>(run(ls.subrange(0, k))->Err_0),
    decreases ls.len() - k,
{
    if k < ls.len() {
        let next = ls.subrange(0, k + 1);
        assert(next.drop_last() =~= ls.subrange(0, k));
        lemma_run_failure_stays(ls, k + 1);
    } else {
        assert(ls.subrange(0, k) =~= ls);
    }
}

/// The parsed form of the given lines: the top level's parts, or the first
/// failure; an `if` block left open at the end is a failure too.
pub open spec fn parse(lines: Seq<Seq<char>>) -> Result<Seq<Part>, Failure> {
    match run(lines) {
        Ok(frames) => if frames.len() != 1 {
            Err(Failure { kind: ParseErrorKind::UnterminatedIf, line: lines.len(), command: seq![] })
        } else {
            Ok(frames[0].true_parts)
        },
        Err(e) => Err(e),
    }
}

/// The parse outcome, in mathematical form.
pub open spec fn parse_result_model(r: Result<Vec<TemplatePart>, ParseError>) -> Result<
    Seq<Part>,
    Failure,
> {
    match r {
        Ok(parts) => Ok(parts_model(parts@)),
        Err(e) => Err(e@),
    }
}

fn is_directive_line(l: &Vec<char>) -> (r: bool)
    ensures
        r == is_directive(l@),
{
    (l.len() >= 3 && l[0] == '/' && l[1] == '/' && l[2] == '%') || (l.len() >= 2 && l[0] == '#'
        && l[1] == '%')
}

fn is_word(w: &Vec<char>, expected: &[char]) -> (r: bool)
    ensures
        r == (w@ == expected@),
{
    if w.len() != expected.len() {
        return false;
    }
    let mut i: usize = 0;
    while i < w.len()
        invariant
            w@.len() == expected@.len(),
            i <= w@.len(),
            forall|k: int| 0 <= k < i ==> w@[k] == expected@[k],
        decreases w@.len() - i,
    {
        if w[i] != expected[i] {
            return false;
        }
        i = i + 1;
    }
    assert(w@ =~= expected@);
    true
}

fn push_part(frames: &mut Vec<Frame>, p: TemplatePart)
    requires
        old(frames)@.len() >= 1,
    ensures
        final(frames)@.len() == old(frames)@.len(),
        frames_model(final(frames)@) == add_part(frames_model(old(frames)@), part_model(p)),
        forall|k: int|
            0 <= k < old(frames)@.len() ==> (#[trigger] final(frames)@[k]).condition == old(
                frames,
            )@[k].condition,
{
    let ghost before = frames_model(frames@);
    let mut f = frames.pop().unwrap();
    let ghost f0 = f;
    proof {
        lemma_parts_model_push(f.true_parts@, p);
        lemma_parts_model_push(f.false_parts@, p);
    }
    f.current_parts().push(p);
    assert(frame_model(f) == if f0.in_else {
        FrameModel { false_parts: frame_model(f0).false_parts.push(part_model(p)), ..frame_model(f0) }
    } else {
        FrameModel { true_parts: frame_model(f0).true_parts.push(part_model(p)), ..frame_model(f0) }
    });
    frames.push(f);
    assert(frames_model(frames@) =~= add_part(before, part_model(p)));
}

/// Parses the lines of a template.
pub fn parse_lines(lines: &Vec<String>) -> (r: Result<Vec<TemplatePart>, ParseError>)
    ensures
        parse_result_model(r) == parse(views(lines@)),
{
    let ghost ls = views(lines@);
    let mut frames: Vec<Frame> = Vec::new();
    frames.push(Frame::new());
    assert(frames_model(frames@) =~= seq![root_frame()]);
    assert(ls.subrange(0, 0) =~= Seq::<Seq<char>>::empty());
    let mut i: usize = 0;
    while i < lines.len()
        invariant
            ls == views(lines@),
            i <= lines@.len(),
            frames@.len() >= 1,
            frames@[0].condition is None,
            forall|k: int| 1 <= k < frames@.len() ==> frames@[k].condition is Some,
            run(ls.subrange(0, i as int)) == Ok::<Seq<FrameModel>, Failure>(frames_model(frames@)),
        decreases lines@.len() - i,
    {
        let ghost prefix = ls.subrange(0, i + 1);
        assert(prefix.drop_last() =~= ls.subrange(0, i as int));
        let ghost before = frames_model(frames@);
        let line = to_chars(lines[i].as_str());
        assert(prefix.last() == line@);
        if !is_directive_line(&line) {
            push_part(&mut frames, TemplatePart::Line(lines[i].clone()));
        } else {
            let w = split_words(&line);
            assert(directive_args(line@).len() == if w@.len() == 0 { 0 } else { w@.len() - 1 });
            if w.len() < 2 {
                proof {
                    lemma_run_failure_stays(ls, i + 1);
                }
                return Err(
                    ParseError {
                        kind: ParseErrorKind::UnknownCommand,
                        line: i + 1,
                        command: String::new(),
                    },
                );
            }
            assert(directive_args(line@)[0] == w@[1]@);
            let cmd = &w[1];
            if is_word(cmd, &['i', 'f']) {
                if w.len() < 3 {
                    proof {
                        lemma_run_failure_stays(ls, i + 1);
                    }
                    return Err(
                        ParseError {
                            kind: ParseErrorKind::MissingCondition,
                            line: i + 1,
                            command: from_chars(cmd),
                        },
                    );
                }
                assert(directive_args(line@)[1] == w@[2]@);
                let mut f = Frame::new();
                f.condition = Some(from_chars(&w[2]));
                frames.push(f);
                assert(frames_model(frames@) =~= before.push(frame_model(f)));
            } else if is_word(cmd, &['e', 'l', 's', 'e']) {
                let mut f = frames.pop().unwrap();
                if f.condition.is_none() {
                    proof {
                        lemma_run_failure_stays(ls, i + 1);
                    }
                    return Err(
                        ParseError {
                            kind: ParseErrorKind::ElseAtTopLevel,
                            line: i + 1,
                            command: from_chars(cmd),
                        },
                    );
                }
                f.in_else = true;
                frames.push(f);
                assert(frames_model(frames@) =~= before.update(
                    before.len() - 1,
                    FrameModel { in_else: true, ..before.last() },
                ));
            } else if is_word(cmd, &['e', 'n', 'd']) {
                if frames.len() <= 1 {
                    proof {
                        lemma_run_failure_stays(ls, i + 1);
                    }
                    return Err(
                        ParseError {
                            kind: ParseErrorKind::EndAtTopLevel,
                            line: i + 1,
                            command: from_chars(cmd),
                        },
                    );
                }
                let f = frames.pop().unwrap();
                assert(frames_model(frames@) =~= before.drop_last());
                let condition = match f.condition {
                    Some(c) => c,
                    None => String::new(),
                };
                let part = TemplatePart::Conditional {
                    condition,
                    if_true: Box::new(f.true_parts),
                    if_false: Box::new(f.false_parts),
                };
                push_part(&mut frames, part);
            } else {
                proof {
                    lemma_run_failure_stays(ls, i + 1);
                }
                return Err(
                    ParseError {
                        kind: ParseErrorKind::UnknownCommand,
                        line: i + 1,
                        command: from_chars(cmd),
                    },
                );
            }
        }
        assert(step(before, line@, (i + 1) as nat) == Ok::<Seq<FrameModel>, Failure>(frames_model(frames@)));
        i = i + 1;
    }
    assert(ls.subrange(0, lines@.len() as int) =~= ls);
    if frames.len() != 1 {
        return Err(
            ParseError {
                kind: ParseErrorKind::UnterminatedIf,
                line: lines.len(),
                command: String::new(),
            },
        );
    }
    let root = frames.pop().unwrap();
    Ok(root.true_parts)
}

/// Parses the text of a template.
pub fn read_template(input: &str) -> (r: Result<Vec<TemplatePart>, ParseError>)
    ensures
        parse_result_model(r) == parse(lines_of(input@)),
{
    let chars = to_chars(input);
    let lines = split_lines(&chars);
    parse_lines(&lines)
}


/// The variables and flags that a template is rendered against.
pub struct Context {
    variables: Vec<(String, String)>,
    flags: Vec<String>,
}

/// The mathematical form of a context: its variables in the order they were
/// first put, and the set of defined flags.
pub struct ContextModel {
    pub variables: Seq<(Seq<char>, Seq<char>)>,
    pub flags: Set<Seq<char>>,
}

/// Whether no two variables share a key.
pub open spec fn keys_unique(vars: Seq<(Seq<char>, Seq<char>)>) -> bool {
    forall|i: int, j: int| 0 <= i < j < vars.len() ==> vars[i].0 != vars[j].0
}

/// Whether a variable with key `k` is present.
pub open spec fn has_key(vars: Seq<(Seq<char>, Seq<char>)>, k: Seq<char>) -> bool {
    exists|i: int| 0 <= i < vars.len() && vars[i].0 == k
}

/// Where a variable with key `k` stands, if one does.
pub open spec fn key_position(vars: Seq<(Seq<char>, Seq<char>)>, k: Seq<char>) -> int {
    choose|i: int| 0 <= i < vars.len() && vars[i].0 == k
}

/// The variables after putting `v` under `k`: an existing entry's value is
/// replaced in place, a new key goes at the end.
pub open spec fn put_var(vars: Seq<(Seq<char>, Seq<char>)>, k: Seq<char>, v: Seq<char>) -> Seq<
    (Seq<char>, Seq<char>),
> {
    if has_key(vars, k) {
        vars.update(key_position(vars, k), (k, v))
    } else {
        vars.push((k, v))
    }
}

pub open spec fn entries_view(v: Seq<(String, String)>) -> Seq<(Seq<char>, Seq<char>)> {
    v.map_values(|e: (String, String)| (e.0@, e.1@))
}

impl View for Context {
    type V = ContextModel;

    closed spec fn view(&self) -> ContextModel {
        ContextModel {
            variables: entries_view(self.variables@),
            flags: Set::new(|f: Seq<char>| exists|i: int| 0 <= i < self.flags@.len() && self.flags@[i]@ == f),
        }
    }
}

impl Context {
    /// Whether the context is well formed: no key is held twice.
    pub closed spec fn wf(&self) -> bool {
        keys_unique(entries_view(self.variables@))
    }

    /// An empty context.
    pub fn new() -> (r: Context)
        ensures
            r.wf(),
            r@.variables == Seq::<(Seq<char>, Seq<char>)>::empty(),
            r@.flags == Set::<Seq<char>>::empty(),
    {
        let r = Context { variables: Vec::new(), flags: Vec::new() };
        assert(entries_view(r.variables@) =~= Seq::<(Seq<char>, Seq<char>)>::empty());
        assert(r@.flags =~= Set::<Seq<char>>::empty());
        r
    }

    /// All variables, as (key, value) pairs.
    pub fn iter(&self) -> (r: Vec<(String, String)>)
        ensures
            r@.map_values(|e: (String, String)| (e.0@, e.1@)) == self@.variables,
    {
        let mut out: Vec<(String, String)> = Vec::new();
        let mut i: usize = 0;
        while i < self.variables.len()
            invariant
                i <= self.variables@.len(),
                out@.len() == i,
                entries_view(out@) == entries_view(self.variables@).subrange(0, i as int),
            decreases self.variables@.len() - i,
        {
            let (k, v) = &self.variables[i];
            let ghost before = out@;
            out.push((k.clone(), v.clone()));
            assert(out@ == before.push(self.variables@[i as int]));
            assert(entries_view(out@).len() == i + 1);
            assert forall|j: int| 0 <= j < i + 1 implies #[trigger] entries_view(out@)[j]
                == entries_view(self.variables@).subrange(0, i + 1)[j] by {
                if j < i {
                    assert(entries_view(before)[j] == entries_view(self.variables@).subrange(0, i as int)[j]);
                }
            }
            assert(entries_view(out@) =~= entries_view(self.variables@).subrange(0, i + 1));
            i = i + 1;
        }
        assert(entries_view(self.variables@).subrange(0, i as int) =~= entries_view(self.variables@));
        out
    }

    /// Whether `key` is a defined flag. Variables are not flags: a key that
    /// only names a variable gives `false`.
    pub fn has(&self, key: &str) -> (r: bool)
        ensures
            r == self@.flags.contains(key@),
    {
        let k = key.to_owned();
        let mut i: usize = 0;
        while i < self.flags.len()
            invariant
                i <= self.flags@.len(),
                k@ == key@,
                forall|j: int| 0 <= j < i ==> self.flags@[j]@ != key@,
            decreases self.flags@.len() - i,
        {
            if self.flags[i] == k {
                return true;
            }
            i = i + 1;
        }
        false
    }

    /// Sets variable `key` to `value`, replacing any earlier value.
    pub fn put(&mut self, key: &str, value: &str)
        requires
            old(self).wf(),
        ensures
            final(self).wf(),
            final(self)@.variables == put_var(old(self)@.variables, key@, value@),
            final(self)@.flags == old(self)@.flags,
    {
        let ghost vars = entries_view(self.variables@);
        let k = key.to_owned();
        let v = value.to_owned();
        let mut i: usize = 0;
        while i < self.variables.len()
            invariant
                i <= self.variables@.len(),
                vars == entries_view(self.variables@),
                keys_unique(vars),
                self.flags == old(self).flags,
                self.variables@ == old(self).variables@,
                k@ == key@,
                v@ == value@,
                forall|j: int| 0 <= j < i ==> vars[j].0 != key@,
            decreases self.variables@.len() - i,
        {
            if self.variables[i].0 == k {
                let ghost old_flags = self@.flags;
                self.variables.set(i, (k, v));
                assert(vars[i as int].0 == key@);
                assert(has_key(vars, key@));
                assert(key_position(vars, key@) == i);
                assert forall|j: int| 0 <= j < vars.len() implies #[trigger] entries_view(self.variables@)[j]
                    == put_var(vars, key@, value@)[j] by {
                    if j != i {
                        assert(self.variables@[j] == old(self).variables@[j]);
                    }
                }
                assert(entries_view(self.variables@) =~= put_var(vars, key@, value@));
                assert(self@.flags =~= old_flags);
                return;
            }
            i = i + 1;
        }
        let ghost old_flags = self@.flags;
        self.variables.push((k, v));
        assert(!has_key(vars, key@));
        assert(entries_view(self.variables@) =~= put_var(vars, key@, value@));
        assert(self@.flags =~= old_flags);
    }

    /// Sets variable `key` to `value` when a value is given; otherwise the
    /// context is left as it is.
    pub fn maybe_put(&mut self, key: &str, value: Option<&str>)
        requires
            old(self).wf(),
        ensures
            final(self).wf(),
            final(self)@.flags == old(self)@.flags,
            match value {
                Some(v) => final(self)@.variables == put_var(old(self)@.variables, key@, v@),
                None => final(self)@.variables == old(self)@.variables,
            },
    {
        if let Some(v) = value {
            self.put(key, v)
        }
    }

    /// Defines the flag `flag`.
    pub fn define(&mut self, flag: &str)
        requires
            old(self).wf(),
        ensures
            final(self).wf(),
            final(self)@.flags == old(self)@.flags.insert(flag@),
            final(self)@.variables == old(self)@.variables,
    {
        let ghost old_flags = self@.flags;
        let ghost old_vec = self.flags@;
        if !self.has(flag) {
            self.flags.push(flag.to_owned());
            assert(self.flags@ == old_vec.push(self.flags@.last()));
            assert forall|f: Seq<char>| #[trigger] self@.flags.contains(f) == old_flags.insert(flag@).contains(f) by {
                if f == flag@ {
                    assert(self.flags@[old_vec.len() as int]@ == f);
                } else {
                    if old_flags.contains(f) {
                        let j = choose|j: int| 0 <= j < old_vec.len() && old_vec[j]@ == f;
                        assert(self.flags@[j]@ == f);
                    }
                    if self@.flags.contains(f) {
                        let j = choose|j: int| 0 <= j < self.flags@.len() && self.flags@[j]@ == f;
                        assert(j < old_vec.len());
                        assert(old_vec[j]@ == f);
                    }
                }
            }
            assert(self@.flags =~= old_flags.insert(flag@));
        } else {
            assert(old_flags.insert(flag@) =~= old_flags);
        }
    }
}

/// What a variable's token looks like: `%KEY%`, or the bare key.
pub open spec fn token(k: Seq<char>, use_delimiters: bool) -> Seq<char> {
    if use_delimiters {
        seq!['%'] + k + seq!['%']
    } else {
        k
    }
}

/// `t` with the token of each variable replaced by its value, one variable
/// after the other in the context's order.
pub open spec fn substitute(vars: Seq<(Seq<char>, Seq<char>)>, t: Seq<char>, use_delimiters: bool) -> Seq<char>
    decreases vars.len(),
{
    if vars.len() == 0 {
        t
    } else {
        replace_all(
            substitute(vars.drop_last(), t, use_delimiters),
            token(vars.last().0, use_delimiters),
            vars.last().1,
        )
    }
}

/// Replaces each variable's token in `text` by its value: `%KEY%` in file
/// contents, the bare key in paths.
pub fn apply_variables(context: &Context, text: &str, use_delimiters: bool) -> (r: String)
    ensures
        r@ == substitute(context@.variables, text@, use_delimiters),
{
    let ghost vars = context@.variables;
    let mut cur = to_chars(text);
    let mut i: usize = 0;
    while i < context.variables.len()
        invariant
            vars == entries_view(context.variables@),
            i <= vars.len(),
            cur@ == substitute(vars.subrange(0, i as int), text@, use_delimiters),
        decreases vars.len() - i,
    {
        let key = to_chars(context.variables[i].0.as_str());
        let value = to_chars(context.variables[i].1.as_str());
        let pattern = if use_delimiters {
            let mut p: Vec<char> = Vec::new();
            p.push('%');
            crate::text::append_chars(&mut p, &key);
            p.push('%');
            assert(p@ =~= token(key@, true));
            p
        } else {
            key
        };
        cur = replace_chars(&cur, &pattern, &value);
        assert(vars.subrange(0, i + 1).drop_last() =~= vars.subrange(0, i as int));
        i = i + 1;
    }
    assert(vars.subrange(0, i as int) =~= vars);
    from_chars(&cur)
}

/// The lines that `parts` renders to: each line with its variables
/// substituted, each conditional replaced by the branch its flag selects.
pub open spec fn render(ctx: ContextModel, parts: Seq<Part>) -> Seq<Seq<char>>
    decreases parts,
{
    if parts.len() == 0 {
        seq![]
    } else {
        let last = match parts.last() {
            Part::Line(t) => seq![substitute(ctx.variables, t, true)],
            Part::Conditional(c, a, b) => if ctx.flags.contains(c) {
                render(ctx, a)
            } else {
                render(ctx, b)
            },
        };
        render(ctx, parts.drop_last()) + last
    }
}

fn render_into(context: &Context, parts: &Vec<TemplatePart>, out: &mut Vec<String>)
    ensures
        views(final(out)@) == views(old(out)@) + render(context@, parts_model(parts@)),
    decreases parts@,
{
    let ghost start = views(out@);
    let mut i: usize = 0;
    assert(parts@.subrange(0, 0) =~= Seq::<TemplatePart>::empty());
    assert(views(out@) =~= start + render(context@, parts_model(parts@.subrange(0, 0))));
    while i < parts.len()
        invariant
            i <= parts@.len(),
            views(out@) == start + render(context@, parts_model(parts@.subrange(0, i as int))),
        decreases parts@.len() - i,
    {
        let ghost before = views(out@);
        let ghost pre = parts@.subrange(0, i as int);
        proof {
            assert(parts@.subrange(0, i + 1) =~= pre.push(parts@[i as int]));
            lemma_parts_model_push(pre, parts@[i as int]);
            assert(parts_model(pre).push(part_model(parts@[i as int])).drop_last() =~= parts_model(pre));
        }
        match &parts[i] {
            TemplatePart::Line(t) => {
                let line = apply_variables(context, t.as_str(), true);
                out.push(line);
                assert(views(out@) =~= before + seq![line@]);
            },
            TemplatePart::Conditional { condition, if_true, if_false } => {
                if context.has(condition.as_str()) {
                    render_into(context, &**if_true, out);
                } else {
                    render_into(context, &**if_false, out);
                }
            },
        }
        assert(views(out@) =~= start + render(context@, parts_model(parts@.subrange(0, i + 1))));
        i = i + 1;
    }
    assert(parts@.subrange(0, i as int) =~= parts@);
}

/// Renders parsed template parts against a context, one output line per
/// rendered line.
pub fn apply_template(context: &Context, parts: Vec<TemplatePart>) -> (r: Vec<String>)
    ensures
        views(r@) == render(context@, parts_model(parts@)),
{
    let mut out: Vec<String> = Vec::new();
    render_into(context, &parts, &mut out);
    assert(views(out@) =~= Seq::<Seq<char>>::empty() + render(context@, parts_model(parts@)));
    out
}


/// The template parts that plain lines parse to.
pub open spec fn plain_parts(ls: Seq<Seq<char>>) -> Seq<Part> {
    ls.map_values(|l: Seq<char>| Part::Line(l))
}

proof fn lemma_run_plain(ls: Seq<Seq<char>>)
    requires
        forall|i: int| 0 <= i < ls.len() ==> !is_directive(#[trigger] ls[i]),
    ensures
        run(ls) == Ok::<Seq<FrameModel>, Failure>(
            seq![FrameModel { true_parts: plain_parts(ls), ..root_frame() }],
        ),
    decreases ls.len(),
{
    if ls.len() == 0 {
        assert(plain_parts(ls) =~= Seq::<Part>::empty());
        assert(seq![FrameModel { true_parts: plain_parts(ls), ..root_frame() }] =~= seq![root_frame()]);
    } else {
        let prev = ls.drop_last();
        assert forall|i: int| 0 <= i < prev.len() implies !is_directive(#[trigger] prev[i]) by {
            assert(prev[i] == ls[i]);
        }
        lemma_run_plain(prev);
        assert(!is_directive(ls[ls.len() - 1]));
        assert(plain_parts(ls) =~= plain_parts(prev).push(Part::Line(ls.last())));
        let f = FrameModel { true_parts: plain_parts(prev), ..root_frame() };
        assert(add_part(seq![f], Part::Line(ls.last())) =~= seq![
            FrameModel { true_parts: plain_parts(ls), ..root_frame() },
        ]);
    }
}

/// Text that holds no `%KEY%` token of any variable is left as it is by
/// substitution: an unset variable's token stays literally.
pub proof fn lemma_substitute_absent(vars: Seq<(Seq<char>, Seq<char>)>, t: Seq<char>)
    requires
        forall|j: int| 0 <= j < vars.len() ==> !contains(t, token(#[trigger] vars[j].0, true)),
    ensures
        substitute(vars, t, true) == t,
    decreases vars.len(),
{
    if vars.len() > 0 {
        let prev = vars.drop_last();
        assert forall|j: int| 0 <= j < prev.len() implies !contains(t, token(#[trigger] prev[j].0, true)) by {
            assert(prev[j] == vars[j]);
        }
        lemma_substitute_absent(prev, t);
        assert(!contains(t, token(vars[vars.len() - 1].0, true)));
        lemma_replace_absent(t, token(vars.last().0, true), vars.last().1);
    }
}

proof fn lemma_render_plain(ctx: ContextModel, ls: Seq<Seq<char>>)
    requires
        forall|i: int, j: int|
            0 <= i < ls.len() && 0 <= j < ctx.variables.len() ==> !contains(
                #[trigger] ls[i],
                token(#[trigger] ctx.variables[j].0, true),
            ),
    ensures
        render(ctx, plain_parts(ls)) == ls,
    decreases ls.len(),
{
    if ls.len() == 0 {
        assert(plain_parts(ls) =~= Seq::<Part>::empty());
    } else {
        let prev = ls.drop_last();
        assert forall|i: int, j: int|
            0 <= i < prev.len() && 0 <= j < ctx.variables.len() implies !contains(
                #[trigger] prev[i],
                token(#[trigger] ctx.variables[j].0, true),
            ) by {
            assert(prev[i] == ls[i]);
        }
        lemma_render_plain(ctx, prev);
        assert forall|j: int| 0 <= j < ctx.variables.len() implies !contains(
            ls.last(),
            token(#[trigger] ctx.variables[j].0, true),
        ) by {
            assert(!contains(ls[ls.len() - 1], token(ctx.variables[j].0, true)));
        }
        lemma_substitute_absent(ctx.variables, ls.last());
        assert(plain_parts(ls).drop_last() =~= plain_parts(prev));
        assert(prev.push(ls.last()) =~= ls);
    }
}

/// A template with no directive lines parses to its lines, and, where no line
/// holds a `%KEY%` token of the context, renders back to exactly its lines.
pub proof fn lemma_plain_template_round_trip(ctx: ContextModel, text: Seq<char>)
    requires
        forall|i: int|
            0 <= i < lines_of(text).len() ==> !is_directive(#[trigger] lines_of(text)[i]),
        forall|i: int, j: int|
            0 <= i < lines_of(text).len() && 0 <= j < ctx.variables.len() ==> !contains(
                #[trigger] lines_of(text)[i],
                token(#[trigger] ctx.variables[j].0, true),
            ),
    ensures
        parse(lines_of(text)) == Ok::<Seq<Part>, Failure>(plain_parts(lines_of(text))),
        render(ctx, plain_parts(lines_of(text))) == lines_of(text),
{
    lemma_run_plain(lines_of(text));
    lemma_render_plain(ctx, lines_of(text));
}

/// Rendering depends on the parsed template and the context alone: rendering
/// the same parts against the same context twice yields the same lines.
pub proof fn lemma_render_repeatable(
    ctx: ContextModel,
    parts: Seq<Part>,
    first: Seq<Seq<char>>,
    second: Seq<Seq<char>>,
)
    requires
        first == render(ctx, parts),
        second == render(ctx, parts),
    ensures
        first == second,
{
}

} // verus!
