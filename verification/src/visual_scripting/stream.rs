//! The order in which a document's elements run: `if` statements are
//! replaced by the elements of their first block whose conditions hold,
//! read against the variables as they stand when the statement is reached.
use vstd::prelude::*;
use crate::visual_scripting::element::{
    Element, ElementKind, StatementBlock, lemma_select_bounds, select_from, try_take_first_holding,
};
use crate::visual_scripting::variable::{Variable, dict_inserted};

verus! {

/// How many elements `s` holds, counting those inside `if` statements.
pub open spec fn size_of_elements(s: Seq<Element>) -> nat
    decreases s,
{
    if s.len() == 0 {
        0
    } else {
        size_of_elements(s.subrange(0, s.len() - 1)) + size_of_element(s[s.len() - 1])
    }
}

/// How many elements `e` is, counting those inside it.
pub open spec fn size_of_element(e: Element) -> nat
    decreases e,
{
    match e.kind {
        ElementKind::IfStatement(st) => 1 + size_of_blocks(st.blocks@),
        _ => 1,
    }
}

/// How many elements the blocks hold, counting those inside `if` statements.
pub open spec fn size_of_blocks(bs: Seq<StatementBlock>) -> nat
    decreases bs,
{
    if bs.len() == 0 {
        0
    } else {
        size_of_blocks(bs.subrange(0, bs.len() - 1)) + size_of_elements(bs[bs.len() - 1].items@)
    }
}

/// Twice the elements still to run, and one more for each frame: it drops
/// at every step of the stream.
pub open spec fn frames_measure(frames: Seq<Seq<Element>>) -> nat
    decreases frames.len(),
{
    if frames.len() == 0 {
        0
    } else {
        frames_measure(frames.drop_last()) + 2 * size_of_elements(frames.last()) + 1
    }
}

/// The size of a sequence is that of its first element and the rest.
pub proof fn lemma_size_front(s: Seq<Element>)
    requires
        s.len() > 0,
    ensures
        size_of_elements(s) == size_of_element(s[0]) + size_of_elements(s.drop_first()),
    decreases s.len(),
{
    if s.len() == 1 {
        assert(s.subrange(0, 0) =~= Seq::<Element>::empty());
        assert(s.drop_first() =~= Seq::<Element>::empty());
    } else {
        let t = s.subrange(0, s.len() - 1);
        lemma_size_front(t);
        assert(t.drop_first() =~= s.drop_first().subrange(0, s.drop_first().len() - 1));
        assert(t[0] == s[0]);
        assert(s.drop_first()[s.drop_first().len() - 1] == s[s.len() - 1]);
    }
}

/// The blocks hold at least the elements of any one of them.
pub proof fn lemma_size_block(bs: Seq<StatementBlock>, i: int)
    requires
        0 <= i < bs.len(),
    ensures
        size_of_elements(bs[i].items@) <= size_of_blocks(bs),
    decreases bs.len(),
{
    if i < bs.len() - 1 {
        lemma_size_block(bs.subrange(0, bs.len() - 1), i);
        assert(bs.subrange(0, bs.len() - 1)[i] == bs[i]);
    }
}

/// The measure of frames whose last is replaced.
pub proof fn lemma_measure_replace_last(frames: Seq<Seq<Element>>, x: Seq<Element>)
    requires
        frames.len() > 0,
    ensures
        frames_measure(frames.drop_last().push(x)) + 2 * size_of_elements(frames.last())
            == frames_measure(frames) + 2 * size_of_elements(x),
{
    assert(frames.drop_last().push(x).drop_last() =~= frames.drop_last());
}

/// The next element to run from the frames `frames`, and the frames after
/// it, `None` where a condition met on the way is not defined.
pub open spec fn next_spec(frames: Seq<Seq<Element>>, vars: Variable) -> Option<(Seq<Seq<Element>>, Option<Element>)>
    decreases frames_measure(frames),
{
    if frames.len() == 0 {
        Some((frames, None))
    } else if frames.last().len() == 0 {
        next_spec(frames.drop_last(), vars)
    } else {
        let top = frames.last();
        let e = top[0];
        let rest = frames.drop_last().push(top.drop_first());
        proof {
            lemma_size_front(top);
            lemma_measure_replace_last(frames, top.drop_first());
        }
        match e.kind {
            ElementKind::IfStatement(st) => match select_from(st.blocks@, vars, 0) {
                None => None,
                Some(None) => next_spec(rest, vars),
                Some(Some(i)) => {
                    proof {
                        if 0 <= i < st.blocks@.len() {
                            lemma_size_block(st.blocks@, i);
                        }
                        assert(rest.push(st.blocks@[i].items@).drop_last() =~= rest);
                    }
                    if 0 <= i < st.blocks@.len() {
                        next_spec(rest.push(st.blocks@[i].items@), vars)
                    } else {
                        None
                    }
                },
            },
            _ => Some((rest, Some(e))),
        }
    }
}

/// None of the elements is an `if` statement.
pub open spec fn no_statements(s: Seq<Element>) -> bool {
    forall|i: int| 0 <= i < s.len() ==> !((#[trigger] s[i]).kind is IfStatement)
}

/// Law: a document without `if` statements runs its elements one by one,
/// in order: with the elements from `i` on pending, the next to run is the
/// `i`th, and those after it stay pending; once none is left, nothing runs.
pub proof fn lemma_runs_in_order(s: Seq<Element>, vars: Variable, i: int)
    requires
        no_statements(s),
        0 <= i <= s.len(),
    ensures
        i < s.len() ==> next_spec(seq![s.skip(i)], vars) == Some((seq![s.skip(i + 1)], Some(s[i]))),
        i == s.len() ==> next_spec(seq![s.skip(i)], vars) == Some((Seq::<Seq<Element>>::empty(), None::<Element>)),
{
    let frames = seq![s.skip(i)];
    if i < s.len() {
        assert(frames.last()[0] == s[i]);
        assert(frames.last().drop_first() =~= s.skip(i + 1));
        assert(frames.drop_last().push(frames.last().drop_first()) =~= seq![s.skip(i + 1)]);
    } else {
        let empty = Seq::<Seq<Element>>::empty();
        assert(frames.last().len() == 0);
        assert(frames.drop_last() =~= empty);
        assert(next_spec(empty, vars) == Some((empty, None::<Element>)));
    }
}

/// The elements that `s` runs, in order, against the variables `vars`:
/// each `if` statement replaced by what the items of its first block whose
/// conditions hold run, or by nothing where none holds; `None` where a
/// condition that is reached is not defined.
pub open spec fn flat(s: Seq<Element>, vars: Variable) -> Option<Seq<Element>>
    decreases size_of_elements(s),
{
    if s.len() == 0 {
        Some(Seq::empty())
    } else {
        proof {
            lemma_size_front(s);
        }
        let e = s[0];
        let tail = flat(s.drop_first(), vars);
        match e.kind {
            ElementKind::IfStatement(st) => match select_from(st.blocks@, vars, 0) {
                None => None,
                Some(None) => tail,
                Some(Some(i)) => if 0 <= i < st.blocks@.len() {
                    proof {
                        lemma_size_block(st.blocks@, i);
                    }
                    match (flat(st.blocks@[i].items@, vars), tail) {
                        (Some(a), Some(b)) => Some(a + b),
                        _ => None,
                    }
                } else {
                    None
                },
            },
            _ => match tail {
                Some(t) => Some(seq![e] + t),
                None => None,
            },
        }
    }
}

/// What the frames run, the last frame first.
pub open spec fn flat_frames(frames: Seq<Seq<Element>>, vars: Variable) -> Option<Seq<Element>>
    decreases frames.len(),
{
    if frames.len() == 0 {
        Some(Seq::empty())
    } else {
        match (flat(frames.last(), vars), flat_frames(frames.drop_last(), vars)) {
            (Some(a), Some(b)) => Some(a + b),
            _ => None,
        }
    }
}

/// Each element that the stream yields leaves less to run.
pub proof fn lemma_next_measure(frames: Seq<Seq<Element>>, vars: Variable)
    ensures
        next_spec(frames, vars) matches Some((rest, Some(_))) ==> frames_measure(rest) < frames_measure(frames),
    decreases frames_measure(frames),
{
    if frames.len() == 0 {
    } else if frames.last().len() == 0 {
        lemma_next_measure(frames.drop_last(), vars);
    } else {
        let top = frames.last();
        let e = top[0];
        let rest = frames.drop_last().push(top.drop_first());
        lemma_size_front(top);
        lemma_measure_replace_last(frames, top.drop_first());
        match e.kind {
            ElementKind::IfStatement(st) => match select_from(st.blocks@, vars, 0) {
                None => {},
                Some(None) => lemma_next_measure(rest, vars),
                Some(Some(i)) => {
                    if 0 <= i < st.blocks@.len() {
                        lemma_size_block(st.blocks@, i);
                        assert(rest.push(st.blocks@[i].items@).drop_last() =~= rest);
                        lemma_next_measure(rest.push(st.blocks@[i].items@), vars);
                    }
                },
            },
            _ => {},
        }
    }
}

/// The elements that the stream yields from `frames` until it ends, in
/// order, the variables staying `vars`; `None` where it stops at a
/// condition that is not defined.
pub open spec fn drain(frames: Seq<Seq<Element>>, vars: Variable) -> Option<Seq<Element>>
    decreases frames_measure(frames),
{
    match next_spec(frames, vars) {
        None => None,
        Some((_, None)) => Some(Seq::empty()),
        Some((rest, Some(e))) => {
            proof {
                lemma_next_measure(frames, vars);
            }
            match drain(rest, vars) {
                Some(t) => Some(seq![e] + t),
                None => None,
            }
        },
    }
}

/// The frames run what their flattening holds, in order.
proof fn lemma_drain_frames(frames: Seq<Seq<Element>>, vars: Variable)
    ensures
        drain(frames, vars) == flat_frames(frames, vars),
    decreases frames_measure(frames),
{
    if frames.len() == 0 {
        assert(next_spec(frames, vars) == Some((frames, None::<Element>)));
    } else if frames.last().len() == 0 {
        lemma_drain_frames(frames.drop_last(), vars);
        assert(flat(frames.last(), vars) == Some(Seq::<Element>::empty()));
        assert(drain(frames, vars) == drain(frames.drop_last(), vars));
        match flat_frames(frames.drop_last(), vars) {
            Some(b) => assert(Seq::<Element>::empty() + b =~= b),
            None => {},
        }
    } else {
        let top = frames.last();
        let e = top[0];
        let rest = frames.drop_last().push(top.drop_first());
        lemma_size_front(top);
        lemma_measure_replace_last(frames, top.drop_first());
        assert(rest.drop_last() =~= frames.drop_last());
        assert(rest.last() == top.drop_first());
        match e.kind {
            ElementKind::IfStatement(st) => match select_from(st.blocks@, vars, 0) {
                None => {},
                Some(None) => {
                    lemma_drain_frames(rest, vars);
                    assert(drain(frames, vars) == drain(rest, vars));
                },
                Some(Some(i)) => {
                    lemma_select_bounds(st.blocks@, vars, 0);
                    lemma_size_block(st.blocks@, i);
                    let pushed = rest.push(st.blocks@[i].items@);
                    assert(pushed.drop_last() =~= rest);
                    assert(pushed.last() == st.blocks@[i].items@);
                    lemma_drain_frames(pushed, vars);
                    assert(drain(frames, vars) == drain(pushed, vars));
                    match (flat(st.blocks@[i].items@, vars), flat(top.drop_first(), vars), flat_frames(frames.drop_last(), vars)) {
                        (Some(a), Some(b), Some(c)) => {
                            assert(a + (b + c) =~= (a + b) + c);
                        },
                        _ => {},
                    }
                },
            },
            _ => {
                lemma_drain_frames(rest, vars);
                match (flat(top.drop_first(), vars), flat_frames(frames.drop_last(), vars)) {
                    (Some(b), Some(c)) => {
                        assert(seq![e] + (b + c) =~= (seq![e] + b) + c);
                    },
                    _ => {},
                }
            },
        }
    }
}

/// Law: a document runs, in order, its elements with each `if` statement
/// replaced by what the first of its blocks whose conditions hold runs, or
/// by nothing where none holds, while the variables stay as they are; it
/// stops where it reaches a condition that is not defined.
pub proof fn lemma_runs_flattened(s: Seq<Element>, vars: Variable)
    ensures
        drain(seq![s], vars) == flat(s, vars),
{
    lemma_drain_frames(seq![s], vars);
    let f = seq![s];
    assert(f.drop_last() =~= Seq::<Seq<Element>>::empty());
    assert(f.last() == s);
    assert(flat_frames(f.drop_last(), vars) == Some(Seq::<Element>::empty()));
    match flat(s, vars) {
        Some(a) => assert(a + Seq::<Element>::empty() =~= a),
        None => {},
    }
}

/// The element sequences of the frames.
pub open spec fn frames_view(f: Seq<Vec<Element>>) -> Seq<Seq<Element>> {
    Seq::new(f.len(), |i: int| f[i]@)
}

/// A document's elements in the order they run, and the variables they read
/// and write.
pub struct ElementStream {
    frames: Vec<Vec<Element>>,
    variables: Variable,
}

impl ElementStream {
    /// The elements still to run: a stack of sequences, the innermost last.
    pub closed spec fn pending(&self) -> Seq<Seq<Element>> {
        frames_view(self.frames@)
    }

    /// The document's variables.
    pub closed spec fn vars(&self) -> Variable {
        self.variables
    }

    /// A stream over the elements of a document, with its variables.
    pub fn new(elements: Vec<Element>, variables: Variable) -> (r: ElementStream)
        ensures
            r.pending() == seq![elements@],
            r.vars() == variables,
    {
        let mut frames: Vec<Vec<Element>> = Vec::new();
        frames.push(elements);
        let r = ElementStream { frames, variables };
        assert(r.pending() =~= seq![r.frames@[0]@]);
        r
    }

    /// The document's variables.
    pub fn variables(&self) -> (r: &Variable)
        ensures
            *r == self.vars(),
    {
        &self.variables
    }

    /// Stores `value` under `key` in the document's variables.
    pub fn set_variable(&mut self, key: &str, value: Variable)
        requires
            old(self).vars().kind is Dictionary,
        ensures
            final(self).pending() == old(self).pending(),
            final(self).vars().kind is Dictionary,
            final(self).vars().interpret_as == old(self).vars().interpret_as,
            dict_inserted(old(self).vars().kind->Dictionary_0@, final(self).vars().kind->Dictionary_0@, key@, value),
    {
        self.variables.set(key, value);
    }

    /// The next element to run, an `if` statement being replaced by the
    /// elements of its first block whose conditions hold.
    pub fn next(&mut self) -> (r: Option<Element>)
        requires
            next_spec(old(self).pending(), old(self).vars()).is_some(),
        ensures
            final(self).vars() == old(self).vars(),
            final(self).pending() == next_spec(old(self).pending(), old(self).vars()).unwrap().0,
            r == next_spec(old(self).pending(), old(self).vars()).unwrap().1,
    {
        self.try_next().unwrap()
    }

    /// The next element to run, as `next` gives it; `None` where a condition
    /// met on the way is not defined, a case in which `next` cannot be called.
    pub fn try_next(&mut self) -> (r: Option<Option<Element>>)
        ensures
            final(self).vars() == old(self).vars(),
            match next_spec(old(self).pending(), old(self).vars()) {
                None => r is None,
                Some((f, e)) => r == Some(e) && final(self).pending() == f,
            },
    {
        loop
            invariant
                self.variables == old(self).variables,
                next_spec(frames_view(self.frames@), self.variables) == next_spec(old(self).pending(), old(self).vars()),
            decreases frames_measure(frames_view(self.frames@)),
        {
            let ghost before = frames_view(self.frames@);
            if self.frames.len() == 0 {
                return Some(None);
            }
            let mut top = self.frames.pop().unwrap();
            assert(frames_view(self.frames@) =~= before.drop_last());
            assert(top@ == before.last());
            if top.len() == 0 {
                continue;
            }
            let e = top.remove(0);
            self.frames.push(top);
            assert(frames_view(self.frames@) =~= before.drop_last().push(before.last().drop_first()));
            proof {
                lemma_size_front(before.last());
                lemma_measure_replace_last(before, before.last().drop_first());
            }
            match e.kind {
                ElementKind::IfStatement(st) => {
                    let ghost rest = frames_view(self.frames@);
                    let mut blocks = st.blocks;
                    let chosen = try_take_first_holding(&mut blocks, &self.variables);
                    match chosen {
                        Some(Some(b)) => {
                            proof {
                                lemma_select_bounds(st.blocks@, self.variables, 0);
                                let i = select_from(st.blocks@, self.variables, 0).unwrap().unwrap();
                                lemma_size_block(st.blocks@, i);
                            }
                            self.frames.push(b.items);
                            assert(frames_view(self.frames@) =~= rest.push(b.items@));
                            assert(frames_view(self.frames@).drop_last() =~= rest);
                        },
                        Some(None) => {},
                        None => {
                            return None;
                        },
                    }
                },
                kind => {
                    return Some(Some(Element { kind }));
                },
            }
        }
    }
}

} // verus!
