//! The instructions shown in the corner of the window: the list of tools, kept in
//! order without repeats, and the text of each section.
use crate::commands::copy_vec;
use crate::text::lines_view;
use crate::tool::ToolState;
use vstd::prelude::*;

verus! {

/// Whether `a` comes strictly before `b` in the dictionary order of their characters,
/// the order of Rust's strings.
pub open spec fn lex_lt(a: Seq<char>, b: Seq<char>) -> bool
    decreases a.len(),
{
    if b.len() == 0 {
        false
    } else if a.len() == 0 {
        true
    } else if a[0] != b[0] {
        a[0] < b[0]
    } else {
        lex_lt(a.drop_first(), b.drop_first())
    }
}

/// No line comes before itself.
pub proof fn lemma_lex_lt_irreflexive(a: Seq<char>)
    ensures
        !lex_lt(a, a),
    decreases a.len(),
{
    if a.len() > 0 {
        lemma_lex_lt_irreflexive(a.drop_first());
    }
}

/// The dictionary order is transitive.
pub proof fn lemma_lex_lt_transitive(a: Seq<char>, b: Seq<char>, c: Seq<char>)
    requires
        lex_lt(a, b),
        lex_lt(b, c),
    ensures
        lex_lt(a, c),
    decreases a.len(),
{
    if a.len() > 0 && b.len() > 0 && c.len() > 0 && a[0] == b[0] && b[0] == c[0] {
        lemma_lex_lt_transitive(a.drop_first(), b.drop_first(), c.drop_first());
    }
}

/// Of two different lines, one comes before the other.
pub proof fn lemma_lex_lt_total(a: Seq<char>, b: Seq<char>)
    requires
        a != b,
    ensures
        lex_lt(a, b) || lex_lt(b, a),
    decreases a.len(),
{
    if a.len() == 0 && b.len() == 0 {
        assert(a =~= b);
    } else if a.len() > 0 && b.len() > 0 && a[0] == b[0] {
        if a.drop_first() == b.drop_first() {
            assert(a =~= seq![a[0]] + a.drop_first());
            assert(b =~= seq![b[0]] + b.drop_first());
        }
        lemma_lex_lt_total(a.drop_first(), b.drop_first());
    }
}

/// Whether `a` comes strictly before `b` (see [`lex_lt`]).
pub fn lex_before(a: &Vec<char>, b: &Vec<char>) -> (r: bool)
    ensures
        r == lex_lt(a@, b@),
{
    let mut i: usize = 0;
    assert(a@.skip(0) =~= a@);
    assert(b@.skip(0) =~= b@);
    while i < a.len() && i < b.len() && a[i] == b[i]
        invariant
            i <= a@.len(),
            i <= b@.len(),
            lex_lt(a@, b@) == lex_lt(a@.skip(i as int), b@.skip(i as int)),
        decreases a@.len() - i,
    {
        assert(a@.skip(i as int).drop_first() =~= a@.skip(i as int + 1));
        assert(b@.skip(i as int).drop_first() =~= b@.skip(i as int + 1));
        i = i + 1;
    }
    if i == b.len() {
        false
    } else if i == a.len() {
        true
    } else {
        a[i] < b[i]
    }
}

/// Whether `a` and `b` hold the same characters.
pub fn same_line(a: &Vec<char>, b: &Vec<char>) -> (r: bool)
    ensures
        r == (a@ == b@),
{
    if a.len() != b.len() {
        return false;
    }
    let mut i: usize = 0;
    while i < a.len()
        invariant
            i <= a@.len() == b@.len(),
            forall|j: int| 0 <= j < i ==> a@[j] == b@[j],
        decreases a@.len() - i,
    {
        if a[i] != b[i] {
            return false;
        }
        i = i + 1;
    }
    assert(a@ =~= b@);
    true
}

/// Whether each line of `s` comes strictly before the lines after it.
pub open spec fn strictly_sorted(s: Seq<Seq<char>>) -> bool {
    forall|i: int, j: int| 0 <= i < j < s.len() ==> lex_lt(#[trigger] s[i], #[trigger] s[j])
}

/// Each line followed by a line break, one after the other.
pub open spec fn joined_lines(s: Seq<Seq<char>>) -> Seq<char>
    decreases s.len(),
{
    if s.len() == 0 {
        Seq::empty()
    } else {
        joined_lines(s.drop_last()) + s.last() + seq!['\n']
    }
}

/// The tools offered while no tool is in use, one line each, in dictionary order and
/// without repeats.
pub struct ToolList {
    entries: Vec<Vec<char>>,
}

impl ToolList {
    /// The lines, in order.
    pub closed spec fn lines(self) -> Seq<Seq<char>> {
        lines_view(self.entries@)
    }

    /// The lines are in strict dictionary order, so each occurs once.
    pub open spec fn wf(self) -> bool {
        strictly_sorted(self.lines())
    }
}

impl View for ToolList {
    type V = Set<Seq<char>>;

    open spec fn view(&self) -> Set<Seq<char>> {
        self.lines().to_set()
    }
}

impl ToolList {
    /// An empty list.
    pub fn new() -> (t: ToolList)
        ensures
            t.wf(),
            t@ == Set::<Seq<char>>::empty(),
            t.lines().len() == 0,
    {
        let t = ToolList { entries: Vec::new() };
        assert(t.lines() =~= Seq::<Seq<char>>::empty());
        assert(t@ =~= Set::<Seq<char>>::empty());
        t
    }

    /// Adds a line, unless it is there already.
    pub fn insert(&mut self, entry: Vec<char>)
        requires
            old(self).wf(),
        ensures
            final(self).wf(),
            final(self)@ == old(self)@.insert(entry@),
    {
        let ghost old_lines = self.lines();
        let ghost e = entry@;
        let n = self.entries.len();
        let mut p: usize = 0;
        while p < n && lex_before(&self.entries[p], &entry)
            invariant
                p <= n == self.entries@.len(),
                self.lines() == old_lines,
                e == entry@,
                forall|i: int| 0 <= i < p ==> lex_lt(#[trigger] old_lines[i], e),
            decreases n - p,
        {
            p = p + 1;
        }
        if p < n && same_line(&self.entries[p], &entry) {
            assert(old_lines[p as int] == e);
            assert(old_lines.to_set().insert(e) =~= old_lines.to_set());
            return;
        }
        proof {
            if p < n {
                assert(old_lines[p as int] != e);
                lemma_lex_lt_total(old_lines[p as int], e);
            }
        }
        self.entries.insert(p, entry);
        let ghost new_lines = self.lines();
        assert(new_lines =~= old_lines.insert(p as int, e));
        assert forall|i: int, j: int| 0 <= i < j < new_lines.len() implies lex_lt(
            #[trigger] new_lines[i],
            #[trigger] new_lines[j],
        ) by {
            if j < p {
            } else if j == p {
            } else if i < p {
                if j > p + 1 {
                    lemma_lex_lt_transitive(e, old_lines[p as int], old_lines[j - 1]);
                }
                assert(lex_lt(e, new_lines[j]));
                lemma_lex_lt_transitive(new_lines[i], e, new_lines[j]);
            } else if i == p {
                if j > p + 1 {
                    lemma_lex_lt_transitive(e, old_lines[p as int], old_lines[j - 1]);
                }
            }
        }
        assert forall|x: Seq<char>| new_lines.to_set().contains(x) == old_lines.to_set().insert(
            e,
        ).contains(x) by {
            if new_lines.contains(x) {
                let k = choose|k: int| 0 <= k < new_lines.len() && new_lines[k] == x;
                if k < p {
                    assert(old_lines[k] == x);
                } else if k > p {
                    assert(old_lines[k - 1] == x);
                }
            }
            if old_lines.contains(x) {
                let k = choose|k: int| 0 <= k < old_lines.len() && old_lines[k] == x;
                if k < p {
                    assert(new_lines[k] == x);
                } else {
                    assert(new_lines[k + 1] == x);
                }
            }
            if x == e {
                assert(new_lines[p as int] == e);
            }
        }
        assert(new_lines.to_set() =~= old_lines.to_set().insert(e));
    }

    /// The lines, each followed by a line break, in dictionary order.
    pub fn text(&self) -> (s: Vec<char>)
        ensures
            s@ == joined_lines(self.lines()),
    {
        let mut s: Vec<char> = Vec::new();
        let mut i: usize = 0;
        assert(self.lines().take(0) =~= Seq::<Seq<char>>::empty());
        while i < self.entries.len()
            invariant
                i <= self.entries@.len(),
                s@ == joined_lines(self.lines().take(i as int)),
            decreases self.entries@.len() - i,
        {
            let ghost before = s@;
            let line = &self.entries[i];
            let mut k: usize = 0;
            while k < line.len()
                invariant
                    k <= line@.len(),
                    s@ == before + line@.take(k as int),
                decreases line@.len() - k,
            {
                s.push(line[k]);
                k = k + 1;
                assert(s@ =~= before + line@.take(k as int));
            }
            s.push('\n');
            assert(line@.take(line@.len() as int) =~= line@);
            assert(self.lines().take(i as int + 1).drop_last() =~= self.lines().take(i as int));
            assert(s@ =~= joined_lines(self.lines().take(i as int + 1)));
            i = i + 1;
        }
        assert(self.lines().take(self.entries@.len() as int) =~= self.lines());
        s
    }
}

/// The sections of the instructions.
#[derive(Clone, Copy, Debug, PartialEq, Eq, Structural)]
pub enum InstructId {
    /// Whether first person mode is on.
    FirstPerson,
    /// What the tool in use offers.
    Tool,
}

/// The text set for each section of the instructions, if any.
pub struct Instructions {
    pub first_person: Option<Vec<char>>,
    pub tool: Option<Vec<char>>,
}

/// The view of an optional line.
pub open spec fn opt_view(o: Option<Vec<char>>) -> Option<Seq<char>> {
    match o {
        Some(v) => Some(v@),
        None => None,
    }
}

/// The text of an optional line, empty where there is none.
pub open spec fn or_empty(o: Option<Seq<char>>) -> Seq<char> {
    match o {
        Some(s) => s,
        None => Seq::empty(),
    }
}

fn copy_or_empty(o: &Option<Vec<char>>) -> (v: Vec<char>)
    ensures
        v@ == or_empty(opt_view(*o)),
{
    match o {
        Some(line) => copy_vec(line),
        None => Vec::new(),
    }
}

impl Instructions {
    /// No section set.
    pub fn new() -> (i: Instructions)
        ensures
            i.first_person is None,
            i.tool is None,
    {
        Instructions { first_person: None, tool: None }
    }

    /// Sets the text of a section, replacing what it held.
    pub fn insert(&mut self, id: InstructId, text: Vec<char>)
        ensures
            id == InstructId::FirstPerson ==> opt_view(final(self).first_person) == Some(text@)
                && opt_view(final(self).tool) == opt_view(old(self).tool),
            id == InstructId::Tool ==> opt_view(final(self).tool) == Some(text@) && opt_view(
                final(self).first_person,
            ) == opt_view(old(self).first_person),
    {
        match id {
            InstructId::FirstPerson => {
                self.first_person = Some(text);
            },
            InstructId::Tool => {
                self.tool = Some(text);
            },
        }
    }

    /// The text of each section, first person first: the text set for it, or nothing;
    /// while no tool is in use, the tool section lists the tools instead.
    pub fn sections(&self, tool_state: ToolState, tool_list: &ToolList) -> (s: (
        Vec<char>,
        Vec<char>,
    ))
        ensures
            s.0@ == or_empty(opt_view(self.first_person)),
            s.1@ == if tool_state == ToolState::Idle {
                joined_lines(tool_list.lines())
            } else {
                or_empty(opt_view(self.tool))
            },
    {
        let first = copy_or_empty(&self.first_person);
        let tool = if tool_state == ToolState::Idle {
            tool_list.text()
        } else {
            copy_or_empty(&self.tool)
        };
        (first, tool)
    }
}

} // verus!
