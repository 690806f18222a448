//! Inject templates: text files whose marker lines say which part of the generated
//! Android activity the lines between them are added to.

use vstd::prelude::*;

verus! {

/// The places of a generated Android activity that a template can inject code into.
#[derive(Clone, Copy, Debug, PartialEq, Eq, Structural)]
pub enum Section {
    Imports,
    QuadSurfaceOnCreateInputConnection,
    MainActivityBody,
    MainActivityOnCreate,
    MainActivityOnResume,
    MainActivityOnPause,
    MainActivityOnActivityResult,
}

/// The number of sections.
pub const SECTIONS: usize = 7;

/// The position of a section in [`Inject`]'s view.
pub open spec fn slot(s: Section) -> int {
    match s {
        Section::Imports => 0,
        Section::QuadSurfaceOnCreateInputConnection => 1,
        Section::MainActivityBody => 2,
        Section::MainActivityOnCreate => 3,
        Section::MainActivityOnResume => 4,
        Section::MainActivityOnPause => 5,
        Section::MainActivityOnActivityResult => 6,
    }
}

/// What one line of a template means.
pub enum Directive {
    /// A marker that opens a section.
    Open(Section),
    /// The marker that closes the open section.
    End,
    /// Anything else: text for the open section, if any.
    Text,
}

/// Code injected into the input-connection hook of the rendering surface.
#[derive(Debug, Default)]
pub struct QuadSurfaceInject {
    pub on_create_input_connection: String,
}

/// Code injected into the main activity.
#[derive(Debug, Default)]
pub struct MainActivityInject {
    pub body: String,
    pub on_resume: String,
    pub on_pause: String,
    pub on_create: String,
    pub on_activity_result: String,
}

/// Everything that inject templates add to the generated sources, section by section.
#[derive(Debug, Default)]
pub struct Inject {
    pub imports: String,
    pub quad_surface: QuadSurfaceInject,
    pub main_activity: MainActivityInject,
}

impl View for Inject {
    type V = Seq<Seq<char>>;

    /// The text of each section, at the section's [`slot`].
    open spec fn view(&self) -> Seq<Seq<char>> {
        seq![
            self.imports@,
            self.quad_surface.on_create_input_connection@,
            self.main_activity.body@,
            self.main_activity.on_create@,
            self.main_activity.on_resume@,
            self.main_activity.on_pause@,
            self.main_activity.on_activity_result@,
        ]
    }
}

/// `t` holds `pat` somewhere.
pub open spec fn has_infix(t: Seq<char>, pat: Seq<char>) -> bool {
    exists|k: int| 0 <= k && k + pat.len() <= t.len() && #[trigger] t.subrange(k, k + pat.len()) == pat
}

/// `t` begins with `pat`.
pub open spec fn has_prefix(t: Seq<char>, pat: Seq<char>) -> bool {
    pat.len() <= t.len() && t.subrange(0, pat.len() as int) == pat
}

/// The meaning of a line: a line that begins with `//%` is a marker, named by the
/// first of the section keywords (or `END`) that it contains, in this order.
pub open spec fn directive(line: Seq<char>) -> Directive {
    if !has_prefix(line, "//%"@) {
        Directive::Text
    } else if has_infix(line, "IMPORTS"@) {
        Directive::Open(Section::Imports)
    } else if has_infix(line, "QUAD_SURFACE_ON_CREATE_INPUT_CONNECTION"@) {
        Directive::Open(Section::QuadSurfaceOnCreateInputConnection)
    } else if has_infix(line, "MAIN_ACTIVITY_BODY"@) {
        Directive::Open(Section::MainActivityBody)
    } else if has_infix(line, "MAIN_ACTIVITY_ON_CREATE"@) {
        Directive::Open(Section::MainActivityOnCreate)
    } else if has_infix(line, "MAIN_ACTIVITY_ON_RESUME"@) {
        Directive::Open(Section::MainActivityOnResume)
    } else if has_infix(line, "MAIN_ACTIVITY_ON_PAUSE"@) {
        Directive::Open(Section::MainActivityOnPause)
    } else if has_infix(line, "MAIN_ACTIVITY_ON_ACTIVITY_RESULT"@) {
        Directive::Open(Section::MainActivityOnActivityResult)
    } else if has_infix(line, "END"@) {
        Directive::End
    } else {
        Directive::Text
    }
}

/// Where a template parse stands: the open section, the text gathered so far, and
/// whether every marker so far was well placed (a section opens only when none is
/// open, and `END` comes only inside a section).
pub struct ParseState {
    pub target: Option<Section>,
    pub sections: Seq<Seq<char>>,
    pub ok: bool,
}

/// The state before the first line.
pub open spec fn initial_state() -> ParseState {
    ParseState { target: None, sections: Seq::new(SECTIONS as nat, |i: int| Seq::empty()), ok: true }
}

/// The effect of one line. Empty lines are skipped; a text line goes, with a line
/// feed, to the open section, or nowhere when none is open.
pub open spec fn step(st: ParseState, line: Seq<char>) -> ParseState {
    if line.len() == 0 {
        st
    } else {
        match directive(line) {
            Directive::Open(s) => ParseState {
                target: Some(s),
                sections: st.sections,
                ok: st.ok && st.target is None,
            },
            Directive::End => ParseState {
                target: None,
                sections: st.sections,
                ok: st.ok && st.target is Some,
            },
            Directive::Text => match st.target {
                Some(s) => ParseState {
                    target: st.target,
                    sections: st.sections.update(
                        slot(s),
                        st.sections[slot(s)] + line + seq!['\n'],
                    ),
                    ok: st.ok,
                },
                None => st,
            },
        }
    }
}

/// The position of the first line feed in `t` at or after `p`, or the length of `t`.
pub open spec fn line_end(t: Seq<char>, p: int) -> int
    decreases t.len() - p,
{
    if p < 0 || p >= t.len() {
        t.len() as int
    } else if t[p] == '\n' {
        p
    } else {
        line_end(t, p + 1)
    }
}

/// The line of `t` that runs from `p` to the line feed at `q`: a carriage return
/// just before the feed is not part of it.
pub open spec fn line_text(t: Seq<char>, p: int, q: int) -> Seq<char> {
    if q < t.len() && p < q && t[q - 1] == '\r' {
        t.subrange(p, q - 1)
    } else {
        t.subrange(p, q)
    }
}

/// The state after the lines of `t` from position `p` on, starting from `st`.
pub open spec fn run(t: Seq<char>, p: int, st: ParseState) -> ParseState
    decreases t.len() - p,
{
    if p < 0 || p > t.len() {
        st
    } else {
        let q = line_end(t, p);
        let next = step(st, line_text(t, p, q));
        if q < p || q >= t.len() {
            next
        } else {
            run(t, q + 1, next)
        }
    }
}

/// What a whole template yields.
pub open spec fn parsed(t: Seq<char>) -> ParseState {
    run(t, 0, initial_state())
}

proof fn lemma_line_end_bounds(t: Seq<char>, p: int)
    requires
        0 <= p <= t.len(),
    ensures
        p <= line_end(t, p) <= t.len(),
        line_end(t, p) < t.len() ==> t[line_end(t, p)] == '\n',
        forall|j: int| p <= j < line_end(t, p) ==> t[j] != '\n',
    decreases t.len() - p,
{
    if p < t.len() && t[p] != '\n' {
        lemma_line_end_bounds(t, p + 1);
    }
}

/// The characters of `s`, in order.
pub(crate) fn chars_of(s: &str) -> (r: Vec<char>)
    ensures
        r@ == s@,
{
    let mut r: Vec<char> = Vec::new();
    for c in it: s.chars()
        invariant
            r@ == it.seq().take(it.index() as int),
    {
        r.push(c);
    }
    r
}

/// Whether `pat` occurs in `cs` at position `k`.
pub(crate) fn occurs_at(cs: &Vec<char>, k: usize, e: usize, pat: &Vec<char>) -> (r: bool)
    requires
        k <= e <= cs@.len(),
    ensures
        r == (k + pat@.len() <= e && cs@.subrange(k as int, k + pat@.len()) == pat@),
{
    if pat.len() > e - k {
        return false;
    }
    let mut j: usize = 0;
    while j < pat.len()
        invariant
            k + pat@.len() <= e <= cs@.len(),
            j <= pat@.len(),
            forall|m: int| 0 <= m < j ==> cs@[k + m] == pat@[m],
        decreases pat@.len() - j,
    {
        if cs[k + j] != pat[j] {
            proof {
                assert(cs@.subrange(k as int, k + pat@.len())[j as int] != pat@[j as int]);
            }
            return false;
        }
        j = j + 1;
    }
    proof {
        assert(cs@.subrange(k as int, k + pat@.len()) =~= pat@);
    }
    true
}

/// Whether the slice `cs[s..e]` contains `pat`.
fn infix_in(cs: &Vec<char>, s: usize, e: usize, pat: &str) -> (r: bool)
    requires
        s <= e <= cs@.len(),
    ensures
        r == has_infix(cs@.subrange(s as int, e as int), pat@),
{
    let pv = chars_of(pat);
    let ghost line = cs@.subrange(s as int, e as int);
    let mut k: usize = s;
    while k < e
        invariant
            s <= k <= e <= cs@.len(),
            pv@ == pat@,
            line == cs@.subrange(s as int, e as int),
            forall|m: int|
                0 <= m < k - s && m + pat@.len() <= line.len() ==> #[trigger] line.subrange(
                    m,
                    m + pat@.len(),
                ) != pat@,
        decreases e - k,
    {
        if occurs_at(cs, k, e, &pv) {
            proof {
                assert(line.subrange(k - s, k - s + pat@.len()) =~= cs@.subrange(
                    k as int,
                    k + pat@.len(),
                ));
                assert(line.subrange(k - s, k - s + pat@.len()) == pat@);
                assert(has_infix(line, pat@));
            }
            return true;
        }
        proof {
            if k + pat@.len() <= e {
                assert(line.subrange(k - s, k - s + pat@.len()) =~= cs@.subrange(
                    k as int,
                    k + pat@.len(),
                ));
            }
        }
        k = k + 1;
    }
    if pv.len() == 0 {
        proof {
            assert(line.subrange(0, 0 + pat@.len() as int) =~= pat@);
        }
        return true;
    }
    false
}

/// Whether the slice `cs[s..e]` begins with `pat`.
fn prefix_in(cs: &Vec<char>, s: usize, e: usize, pat: &str) -> (r: bool)
    requires
        s <= e <= cs@.len(),
    ensures
        r == has_prefix(cs@.subrange(s as int, e as int), pat@),
{
    let pat = chars_of(pat);
    let r = occurs_at(cs, s, e, &pat);
    proof {
        let line = cs@.subrange(s as int, e as int);
        if pat@.len() <= line.len() {
            assert(line.subrange(0, pat@.len() as int) =~= cs@.subrange(
                s as int,
                s + pat@.len(),
            ));
        }
    }
    r
}

/// The meaning of the line `cs[s..e]`.
fn classify(cs: &Vec<char>, s: usize, e: usize) -> (d: Directive)
    requires
        s <= e <= cs@.len(),
    ensures
        d == directive(cs@.subrange(s as int, e as int)),
{
    if !prefix_in(cs, s, e, "//%") {
        Directive::Text
    } else if infix_in(cs, s, e, "IMPORTS") {
        Directive::Open(Section::Imports)
    } else if infix_in(cs, s, e, "QUAD_SURFACE_ON_CREATE_INPUT_CONNECTION") {
        Directive::Open(Section::QuadSurfaceOnCreateInputConnection)
    } else if infix_in(cs, s, e, "MAIN_ACTIVITY_BODY") {
        Directive::Open(Section::MainActivityBody)
    } else if infix_in(cs, s, e, "MAIN_ACTIVITY_ON_CREATE") {
        Directive::Open(Section::MainActivityOnCreate)
    } else if infix_in(cs, s, e, "MAIN_ACTIVITY_ON_RESUME") {
        Directive::Open(Section::MainActivityOnResume)
    } else if infix_in(cs, s, e, "MAIN_ACTIVITY_ON_PAUSE") {
        Directive::Open(Section::MainActivityOnPause)
    } else if infix_in(cs, s, e, "MAIN_ACTIVITY_ON_ACTIVITY_RESULT") {
        Directive::Open(Section::MainActivityOnActivityResult)
    } else if infix_in(cs, s, e, "END") {
        Directive::End
    } else {
        Directive::Text
    }
}

impl Inject {
    /// No injected code in any section.
    pub fn new() -> (r: Inject)
        ensures
            r@ == Seq::new(SECTIONS as nat, |i: int| Seq::<char>::empty()),
    {
        let r = Inject {
            imports: String::new(),
            quad_surface: QuadSurfaceInject { on_create_input_connection: String::new() },
            main_activity: MainActivityInject {
                body: String::new(),
                on_resume: String::new(),
                on_pause: String::new(),
                on_create: String::new(),
                on_activity_result: String::new(),
            },
        };
        proof {
            assert(r@ =~= Seq::new(SECTIONS as nat, |i: int| Seq::<char>::empty()));
        }
        r
    }

    /// Appends `text` to section `s`.
    fn append_to(&mut self, s: Section, text: &str)
        ensures
            final(self)@ == old(self)@.update(slot(s), old(self)@[slot(s)] + text@),
    {
        match s {
            Section::Imports => self.imports.append(text),
            Section::QuadSurfaceOnCreateInputConnection => self.quad_surface.on_create_input_connection.append(text),
            Section::MainActivityBody => self.main_activity.body.append(text),
            Section::MainActivityOnCreate => self.main_activity.on_create.append(text),
            Section::MainActivityOnResume => self.main_activity.on_resume.append(text),
            Section::MainActivityOnPause => self.main_activity.on_pause.append(text),
            Section::MainActivityOnActivityResult => self.main_activity.on_activity_result.append(text),
        }
        proof {
            assert(final(self)@ =~= old(self)@.update(slot(s), old(self)@[slot(s)] + text@));
        }
    }

    /// Appends every section of `other` to the same section of `self`.
    pub fn add(&mut self, other: Inject)
        ensures
            final(self)@ == Seq::new(SECTIONS as nat, |i: int| old(self)@[i] + other@[i]),
    {
        self.imports.append(other.imports.as_str());
        self.quad_surface.on_create_input_connection.append(
            other.quad_surface.on_create_input_connection.as_str(),
        );
        self.main_activity.body.append(other.main_activity.body.as_str());
        self.main_activity.on_resume.append(other.main_activity.on_resume.as_str());
        self.main_activity.on_pause.append(other.main_activity.on_pause.as_str());
        self.main_activity.on_create.append(other.main_activity.on_create.as_str());
        self.main_activity.on_activity_result.append(
            other.main_activity.on_activity_result.as_str(),
        );
        proof {
            assert(final(self)@ =~= Seq::new(SECTIONS as nat, |i: int| old(self)@[i] + other@[i]));
        }
    }
}

/// Splits an inject template into its sections. A marker line (one that begins with
/// `//%`) opens the section whose keyword it names, or closes the open one with `END`;
/// every other non-empty line inside a section is added to it, followed by a line feed.
/// Lines outside any section are ignored. A section may not open inside another, and
/// `END` may not come outside one.
pub fn parse_inject_template(file: &str) -> (r: Inject)
    requires
        parsed(file@).ok,
    ensures
        r@ == parsed(file@).sections,
{
    parse_sections(file).0
}

/// Whether every marker of `file` is well placed, so that it can be parsed.
pub fn is_well_formed_template(file: &str) -> (r: bool)
    ensures
        r == parsed(file@).ok,
{
    parse_sections(file).1
}

/// The sections of `file`, and whether its markers are well placed.
fn parse_sections(file: &str) -> (r: (Inject, bool))
    ensures
        r.0@ == parsed(file@).sections,
        r.1 == parsed(file@).ok,
{
    let ghost t = file@;
    let cs = chars_of(file);
    let n = cs.len();
    let mut res = Inject::new();
    let mut target: Option<Section> = None;
    let mut ok = true;
    let ghost mut st = initial_state();
    proof {
        assert(res@ =~= st.sections);
    }
    let mut p: usize = 0;
    loop
        invariant_except_break
            p <= n,
            run(t, p as int, st) == parsed(t),
        invariant
            t == file@,
            cs@ == t,
            n == t.len(),
            ok == st.ok,
            res@ == st.sections,
            target == st.target,
        ensures
            st == parsed(t),
        decreases n - p,
    {
        let mut q: usize = p;
        while q < n && cs[q] != '\n'
            invariant
                p <= q <= n,
                n == cs@.len(),
                cs@ == t,
                n == t.len(),
                forall|j: int| p <= j < q ==> cs@[j] != '\n',
            decreases n - q,
        {
            q = q + 1;
        }
        proof {
            lemma_line_end_bounds(t, p as int);
            if line_end(t, p as int) < q {
                assert(t[line_end(t, p as int)] == '\n');
            }
            if q < line_end(t, p as int) {
                assert(t[q as int] != '\n');
            }
            assert(q == line_end(t, p as int));
        }
        let e = if q < n && p < q && cs[q - 1] == '\r' {
            q - 1
        } else {
            q
        };
        let ghost line = t.subrange(p as int, e as int);
        assert(line == line_text(t, p as int, q as int));
        if e > p {
            match classify(&cs, p, e) {
                Directive::Open(s) => {
                    ok = ok && target.is_none();
                    target = Some(s);
                },
                Directive::End => {
                    ok = ok && target.is_some();
                    target = None;
                },
                Directive::Text => {
                    if let Some(s) = target {
                        assert(p <= e <= file@.len());
                        let text = file.substring_char(p, e);
                        res.append_to(s, text);
                        res.append_to(s, "\n");
                        proof {
                            reveal_strlit("\n");
                            assert("\n"@ =~= seq!['\n']);
                            assert(res@ =~= st.sections.update(
                                slot(s),
                                st.sections[slot(s)] + line + seq!['\n'],
                            ));
                        }
                    }
                },
            }
        }
        proof {
            st = step(st, line);
        }
        if q >= n {
            break;
        }
        p = q + 1;
    }
    (res, ok)
}

} // verus!
