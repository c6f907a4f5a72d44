//! The environment: an arena of frames, each holding bindings and naming the
//! frame that encloses it. Closures keep frames alive by holding their index.
use vstd::prelude::*;
use crate::value::{Val, Value};

verus! {

pub struct Binding {
    pub name: String,
    pub value: Value,
}

pub struct Frame {
    pub bindings: Vec<Binding>,
    pub parent: Option<usize>,
}

/// A frame as bindings of names to values, later bindings shadowing earlier
/// ones, and its enclosing frame.
pub struct FrameModel {
    pub vars: Seq<(Seq<char>, Val)>,
    pub parent: Option<usize>,
}

impl View for Binding {
    type V = (Seq<char>, Val);

    open spec fn view(&self) -> (Seq<char>, Val) {
        (self.name@, self.value@)
    }
}

impl View for Frame {
    type V = FrameModel;

    open spec fn view(&self) -> FrameModel {
        FrameModel { vars: self.bindings@.map_values(|b: Binding| b@), parent: self.parent }
    }
}

/// The chain of scopes that a running program sees; frame 0 holds the globals.
pub struct Environment {
    pub frames: Vec<Frame>,
}

impl View for Environment {
    type V = Seq<FrameModel>;

    open spec fn view(&self) -> Seq<FrameModel> {
        self.frames@.map_values(|f: Frame| f@)
    }
}

/// The position of the latest binding of `name`.
pub open spec fn find(vars: Seq<(Seq<char>, Val)>, name: Seq<char>) -> Option<int>
    decreases vars.len(),
{
    if vars.len() == 0 {
        None
    } else if vars.last().0 == name {
        Some(vars.len() - 1)
    } else {
        find(vars.drop_last(), name)
    }
}

proof fn lemma_find_bounds(vars: Seq<(Seq<char>, Val)>, name: Seq<char>)
    ensures
        find(vars, name) matches Some(i) ==> 0 <= i < vars.len() && vars[i].0 == name,
    decreases vars.len(),
{
    if vars.len() > 0 && vars.last().0 != name {
        lemma_find_bounds(vars.drop_last(), name);
    }
}

/// The frame `d` links up the chain from frame `f`.
pub open spec fn ancestor(frames: Seq<FrameModel>, f: int, d: nat) -> Option<int>
    decreases d,
{
    if !(0 <= f < frames.len()) {
        None
    } else if d == 0 {
        Some(f)
    } else {
        match frames[f].parent {
            Some(p) => ancestor(frames, p as int, (d - 1) as nat),
            None => None,
        }
    }
}

/// The value bound to `name` in frame `f` itself.
pub open spec fn lookup(frames: Seq<FrameModel>, f: int, name: Seq<char>) -> Option<Val> {
    if 0 <= f < frames.len() {
        match find(frames[f].vars, name) {
            Some(i) => Some(frames[f].vars[i].1),
            None => None,
        }
    } else {
        None
    }
}

/// The frames after binding `name` to `v` in frame `f`.
pub open spec fn bind(frames: Seq<FrameModel>, f: int, name: Seq<char>, v: Val) -> Seq<FrameModel> {
    if 0 <= f < frames.len() {
        frames.update(
            f,
            FrameModel { vars: frames[f].vars.push((name, v)), parent: frames[f].parent },
        )
    } else {
        frames
    }
}

/// The frames after rebinding the existing `name` of frame `f` to `v`; `None`
/// where frame `f` has no such name.
pub open spec fn rebind(frames: Seq<FrameModel>, f: int, name: Seq<char>, v: Val) -> Option<
    Seq<FrameModel>,
> {
    if 0 <= f < frames.len() {
        match find(frames[f].vars, name) {
            Some(i) => Some(
                frames.update(
                    f,
                    FrameModel {
                        vars: frames[f].vars.update(i, (name, v)),
                        parent: frames[f].parent,
                    },
                ),
            ),
            None => None,
        }
    } else {
        None
    }
}

/// The value of `name` as seen from frame `f`: the nearest frame up the chain
/// that binds it decides.
pub open spec fn lookup_chain(frames: Seq<FrameModel>, f: int, name: Seq<char>) -> Option<Val>
    decreases f + 1,
{
    if !(0 <= f < frames.len()) {
        None
    } else if lookup(frames, f, name) is Some {
        lookup(frames, f, name)
    } else {
        match frames[f].parent {
            Some(p) => if p < f {
                lookup_chain(frames, p as int, name)
            } else {
                None
            },
            None => None,
        }
    }
}

/// Rebinding `name` in the nearest frame up the chain from `f` that binds it.
pub open spec fn rebind_chain(frames: Seq<FrameModel>, f: int, name: Seq<char>, v: Val) -> Option<
    Seq<FrameModel>,
>
    decreases f + 1,
{
    if !(0 <= f < frames.len()) {
        None
    } else if lookup(frames, f, name) is Some {
        rebind(frames, f, name, v)
    } else {
        match frames[f].parent {
            Some(p) => if p < f {
                rebind_chain(frames, p as int, name, v)
            } else {
                None
            },
            None => None,
        }
    }
}

impl Environment {
    /// An environment with one empty global frame.
    pub fn new() -> (r: Environment)
        ensures
            r@ == seq![FrameModel { vars: seq![], parent: None }],
    {
        let mut frames: Vec<Frame> = Vec::new();
        frames.push(Frame { bindings: Vec::new(), parent: None });
        let r = Environment { frames };
        assert(r@[0].vars =~= seq![]);
        assert(r@ =~= seq![FrameModel { vars: seq![], parent: None }]);
        r
    }

    /// Opens a new, empty frame enclosed by `outer`, and returns its index.
    pub fn from(&mut self, outer: usize) -> (r: usize)
        requires
            old(self)@.len() < usize::MAX,
        ensures
            r == old(self)@.len(),
            final(self)@ == old(self)@.push(FrameModel { vars: seq![], parent: Some(outer) }),
    {
        let r = self.frames.len();
        self.frames.push(Frame { bindings: Vec::new(), parent: Some(outer) });
        assert(self@[r as int].vars =~= seq![]);
        assert(self@ =~= old(self)@.push(FrameModel { vars: seq![], parent: Some(outer) }));
        r
    }

    /// Releases the frames from index `n` on.
    pub fn release(&mut self, n: usize)
        requires
            n <= old(self)@.len(),
        ensures
            final(self)@ == old(self)@.take(n as int),
    {
        self.frames.truncate(n);
        assert(self@ =~= old(self)@.take(n as int));
    }

    /// Binds `name` to `value` in frame `frame`, shadowing an earlier binding.
    pub fn define(&mut self, frame: usize, name: String, value: Value)
        ensures
            final(self)@ == bind(old(self)@, frame as int, name@, value@),
    {
        if frame < self.frames.len() {
            let ghost nm = name@;
            let ghost v = value@;
            self.frames[frame].bindings.push(Binding { name, value });
            assert(self@ =~= bind(old(self)@, frame as int, nm, v)) by {
                assert(self@[frame as int].vars =~= old(self)@[frame as int].vars.push((nm, v)));
            }
        }
    }

    /// The position of `name` in frame `frame`.
    fn position(&self, frame: usize, name: &String) -> (r: Option<usize>)
        requires
            frame < self@.len(),
        ensures
            r matches Some(i) ==> (find(self@[frame as int].vars, name@) == Some(i as int) && i
                < self.frames@[frame as int].bindings@.len()),
            r is None ==> find(self@[frame as int].vars, name@) is None,
    {
        let bindings = &self.frames[frame].bindings;
        let ghost vars = self@[frame as int].vars;
        let mut i: usize = bindings.len();
        assert(vars.subrange(0, i as int) == vars);
        while i > 0
            invariant
                i <= bindings@.len(),
                frame < self@.len(),
                vars == self@[frame as int].vars,
                bindings@ == self.frames@[frame as int].bindings@,
                vars == bindings@.map_values(|b: Binding| b@),
                find(vars.subrange(0, i as int), name@) == find(vars, name@),
            decreases i,
        {
            assert(vars.subrange(0, i as int).drop_last() == vars.subrange(0, i - 1));
            assert(vars.subrange(0, i as int).last() == bindings@[i - 1]@);
            if bindings[i - 1].name.eq(name) {
                assert(find(vars.subrange(0, i as int), name@) == Some(i - 1));
                return Some(i - 1);
            }
            i = i - 1;
        }
        None
    }

    /// The value bound to `name` in frame `frame` itself.
    pub fn lookup(&self, frame: usize, name: &String) -> (r: Option<Value>)
        ensures
            match r {
                Some(v) => lookup(self@, frame as int, name@) == Some(v@),
                None => lookup(self@, frame as int, name@) is None,
            },
    {
        if frame >= self.frames.len() {
            return None;
        }
        match self.position(frame, name) {
            Some(i) => Some(self.frames[frame].bindings[i].value.duplicate()),
            None => None,
        }
    }

    /// The frame `distance` links up the chain from `frame`.
    pub fn ancestor(&self, frame: usize, distance: usize) -> (r: Option<usize>)
        ensures
            r matches Some(f) ==> ancestor(self@, frame as int, distance as nat) == Some(f as int),
            r is None ==> ancestor(self@, frame as int, distance as nat) is None,
    {
        let mut f = frame;
        let mut d = distance;
        while d > 0
            invariant
                ancestor(self@, f as int, d as nat) == ancestor(self@, frame as int, distance as nat),
            decreases d,
        {
            if f >= self.frames.len() {
                return None;
            }
            match self.frames[f].parent {
                Some(p) => {
                    f = p;
                    d = d - 1;
                },
                None => {
                    return None;
                },
            }
        }
        if f >= self.frames.len() {
            return None;
        }
        Some(f)
    }

    /// The value of `name` in the frame `distance` links up from `frame`.
    pub fn get_at(&self, frame: usize, distance: usize, name: &String) -> (r: Option<Value>)
        ensures
            match r {
                Some(v) => ancestor(self@, frame as int, distance as nat) matches Some(f) && lookup(
                    self@,
                    f,
                    name@,
                ) == Some(v@),
                None => ancestor(self@, frame as int, distance as nat) matches Some(f) ==> lookup(
                    self@,
                    f,
                    name@,
                ) is None,
            },
    {
        match self.ancestor(frame, distance) {
            Some(f) => self.lookup(f, name),
            None => None,
        }
    }

    /// Rebinds the existing `name` of frame `frame`; false where it has none.
    pub fn assign_here(&mut self, frame: usize, name: &String, value: Value) -> (r: bool)
        ensures
            r == rebind(old(self)@, frame as int, name@, value@) is Some,
            r ==> Some(final(self)@) == rebind(old(self)@, frame as int, name@, value@),
            !r ==> final(self)@ == old(self)@,
    {
        if frame >= self.frames.len() {
            return false;
        }
        match self.position(frame, name) {
            Some(i) => {
                let ghost v = value@;
                let nm = name.clone();
                self.frames[frame].bindings.set(i, Binding { name: nm, value });
                proof {
                    lemma_find_bounds(old(self)@[frame as int].vars, name@);
                }
                assert(self@ =~= rebind(old(self)@, frame as int, name@, v)->0) by {
                    assert(self@[frame as int].vars =~= old(self)@[frame as int].vars.update(
                        i as int,
                        (name@, v),
                    ));
                }
                true
            },
            None => false,
        }
    }

    /// Rebinds `name` in the frame `distance` links up from `frame`.
    pub fn assign_at(&mut self, frame: usize, distance: usize, name: &String, value: Value) -> (r:
        bool)
        ensures
            ({
                let target = ancestor(old(self)@, frame as int, distance as nat);
                &&& r == (target matches Some(f) && rebind(old(self)@, f, name@, value@) is Some)
                &&& r ==> Some(final(self)@) == rebind(old(self)@, target->0, name@, value@)
                &&& !r ==> final(self)@ == old(self)@
            }),
    {
        match self.ancestor(frame, distance) {
            Some(f) => self.assign_here(f, name, value),
            None => false,
        }
    }

    /// The value of `name` as seen from `frame`, walking up the chain.
    pub fn get(&self, frame: usize, name: &String) -> (r: Option<Value>)
        ensures
            match r {
                Some(v) => lookup_chain(self@, frame as int, name@) == Some(v@),
                None => lookup_chain(self@, frame as int, name@) is None,
            },
        decreases frame,
    {
        if frame >= self.frames.len() {
            return None;
        }
        match self.lookup(frame, name) {
            Some(v) => Some(v),
            None => match self.frames[frame].parent {
                Some(p) => if p < frame {
                    self.get(p, name)
                } else {
                    None
                },
                None => None,
            },
        }
    }

    /// Rebinds `name` in the nearest frame up the chain from `frame` that binds it.
    pub fn assign(&mut self, frame: usize, name: &String, value: Value) -> (r: bool)
        ensures
            r == rebind_chain(old(self)@, frame as int, name@, value@) is Some,
            r ==> Some(final(self)@) == rebind_chain(old(self)@, frame as int, name@, value@),
            !r ==> final(self)@ == old(self)@,
        decreases frame,
    {
        if frame >= self.frames.len() {
            return false;
        }
        if self.position(frame, name).is_some() {
            return self.assign_here(frame, name, value);
        }
        match self.frames[frame].parent {
            Some(p) => if p < frame {
                self.assign(p, name, value)
            } else {
                false
            },
            None => false,
        }
    }
}

} // verus!
