//! The runtime lexical environment: a stack of name-to-value frames,
//! with the root frame at the bottom and the builtin table consulted
//! after the frames at every lookup.
//!
//! The context also carries the interpreter's line-based input and
//! output as data: `read` takes the next pending input line and `write`
//! appends to the output log. The surrounding program performs the real
//! transfer before and after evaluation.

use vstd::prelude::*;
use crate::value::{BuiltinKind, FnView, Value, ValueView};

verus! {

/// One lexical scope: an association list from names to values; a later
/// entry for the same name overrides an earlier one.
pub struct EvalFrame {
    pub locals: Vec<(String, Value)>,
}

/// Ghost form of a frame: a map from names to value views.
pub type FrameView = Map<Seq<char>, ValueView>;

/// Ghost counterpart of `EvalContext`.
pub struct CtxView {
    /// Frame stack; the last element is the innermost frame.
    pub frames: Seq<FrameView>,
    /// Lines not yet consumed by `read`, first to be read first.
    pub input: Seq<Seq<char>>,
    /// Lines written by `write`, in order.
    pub output: Seq<Seq<char>>,
}

/// The map an association list denotes.
pub open spec fn assoc_view(s: Seq<(String, Value)>) -> FrameView
    decreases s.len(),
{
    if s.len() == 0 {
        Map::empty()
    } else {
        assoc_view(s.drop_last()).insert(s.last().0@, s.last().1@)
    }
}

impl View for EvalFrame {
    type V = FrameView;

    open spec fn view(&self) -> FrameView {
        assoc_view(self.locals@)
    }
}

impl EvalFrame {
    /// A frame holding the given bindings.
    pub fn new(locals: Vec<(String, Value)>) -> (r: Self)
        ensures
            r@ == assoc_view(locals@),
    {
        EvalFrame { locals }
    }

    /// A frame with no bindings.
    pub fn empty() -> (r: Self)
        ensures
            r@ == Map::<Seq<char>, ValueView>::empty(),
    {
        EvalFrame { locals: Vec::new() }
    }

    /// Binds `name` to `value`, overriding any earlier binding.
    pub fn set(&mut self, name: String, value: Value)
        ensures
            final(self)@ == old(self)@.insert(name@, value@),
    {
        let ghost old_locals = self.locals@;
        let ghost n = name@;
        let ghost v = value@;
        self.locals.push((name, value));
        proof {
            assert(self.locals@.drop_last() =~= old_locals);
        }
    }

    /// The value bound to `name`, if any.
    pub fn lookup(&self, name: &String) -> (r: Option<Value>)
        ensures
            match r {
                Some(v) => self@.contains_key(name@) && v@ == self@[name@],
                None => !self@.contains_key(name@),
            },
    {
        proof {
            assert(self.locals@.subrange(0, self.locals@.len() as int) =~= self.locals@);
        }
        lookup_assoc(&self.locals, self.locals.len(), name)
    }
}

/// Searches the first `i` entries of an association list, latest first.
fn lookup_assoc(locals: &Vec<(String, Value)>, i: usize, name: &String) -> (r: Option<Value>)
    requires
        i <= locals@.len(),
    ensures
        match r {
            Some(v) => assoc_view(locals@.subrange(0, i as int)).contains_key(name@) && v@
                == assoc_view(locals@.subrange(0, i as int))[name@],
            None => !assoc_view(locals@.subrange(0, i as int)).contains_key(name@),
        },
    decreases i,
{
    if i == 0 {
        proof {
            assert(locals@.subrange(0, 0) =~= Seq::<(String, Value)>::empty());
        }
        None
    } else {
        proof {
            assert(locals@.subrange(0, i as int).drop_last() =~= locals@.subrange(0, i - 1));
            assert(locals@.subrange(0, i as int).last() == locals@[i - 1]);
        }
        let entry = &locals[i - 1];
        if entry.0.eq(name) {
            Some(entry.1.clone())
        } else {
            lookup_assoc(locals, i - 1, name)
        }
    }
}

/// The builtin bound to a name, if the name is a builtin's.
pub open spec fn builtin_of_name(n: Seq<char>) -> Option<BuiltinKind> {
    if n == "+"@ {
        Some(BuiltinKind::Add)
    } else if n == "-"@ {
        Some(BuiltinKind::Sub)
    } else if n == "*"@ {
        Some(BuiltinKind::Mul)
    } else if n == "/"@ {
        Some(BuiltinKind::Div)
    } else if n == "="@ {
        Some(BuiltinKind::Eq)
    } else if n == ">"@ {
        Some(BuiltinKind::Greater)
    } else if n == "<"@ {
        Some(BuiltinKind::Less)
    } else if n == ">="@ {
        Some(BuiltinKind::GreaterEq)
    } else if n == "<="@ {
        Some(BuiltinKind::LessEq)
    } else if n == "and"@ {
        Some(BuiltinKind::And)
    } else if n == "or"@ {
        Some(BuiltinKind::Or)
    } else if n == "not"@ {
        Some(BuiltinKind::Not)
    } else if n == "concatenate"@ {
        Some(BuiltinKind::Concatenate)
    } else if n == "write"@ {
        Some(BuiltinKind::Write)
    } else if n == "read"@ {
        Some(BuiltinKind::Read)
    } else {
        None
    }
}

/// Finds the builtin a name denotes.
pub fn lookup_builtin(name: &String) -> (r: Option<BuiltinKind>)
    ensures
        r == builtin_of_name(name@),
{
    if name.eq(&String::from_str("+")) {
        Some(BuiltinKind::Add)
    } else if name.eq(&String::from_str("-")) {
        Some(BuiltinKind::Sub)
    } else if name.eq(&String::from_str("*")) {
        Some(BuiltinKind::Mul)
    } else if name.eq(&String::from_str("/")) {
        Some(BuiltinKind::Div)
    } else if name.eq(&String::from_str("=")) {
        Some(BuiltinKind::Eq)
    } else if name.eq(&String::from_str(">")) {
        Some(BuiltinKind::Greater)
    } else if name.eq(&String::from_str("<")) {
        Some(BuiltinKind::Less)
    } else if name.eq(&String::from_str(">=")) {
        Some(BuiltinKind::GreaterEq)
    } else if name.eq(&String::from_str("<=")) {
        Some(BuiltinKind::LessEq)
    } else if name.eq(&String::from_str("and")) {
        Some(BuiltinKind::And)
    } else if name.eq(&String::from_str("or")) {
        Some(BuiltinKind::Or)
    } else if name.eq(&String::from_str("not")) {
        Some(BuiltinKind::Not)
    } else if name.eq(&String::from_str("concatenate")) {
        Some(BuiltinKind::Concatenate)
    } else if name.eq(&String::from_str("write")) {
        Some(BuiltinKind::Write)
    } else if name.eq(&String::from_str("read")) {
        Some(BuiltinKind::Read)
    } else {
        None
    }
}

/// Searches the frame stack from the innermost frame outward.
pub open spec fn frames_lookup(frames: Seq<FrameView>, name: Seq<char>) -> Option<ValueView>
    decreases frames.len(),
{
    if frames.len() == 0 {
        None
    } else if frames.last().contains_key(name) {
        Some(frames.last()[name])
    } else {
        frames_lookup(frames.drop_last(), name)
    }
}

/// The full lookup policy: frames from the innermost outward, then the
/// builtin table; a local binding therefore shadows a builtin.
pub open spec fn ctx_lookup(ctx: CtxView, name: Seq<char>) -> Option<ValueView> {
    match frames_lookup(ctx.frames, name) {
        Some(v) => Some(v),
        None => match builtin_of_name(name) {
            Some(k) => Some(ValueView::Symbol(FnView::Builtin(k))),
            None => None,
        },
    }
}

/// The runtime environment: the frame stack, and the pending input and
/// accumulated output lines.
pub struct EvalContext {
    pub frames: Vec<EvalFrame>,
    pub input: Vec<String>,
    pub output: Vec<String>,
}

impl View for EvalContext {
    type V = CtxView;

    open spec fn view(&self) -> CtxView {
        CtxView {
            frames: self.frames@.map_values(|f: EvalFrame| f@),
            input: self.input@.map_values(|s: String| s@),
            output: self.output@.map_values(|s: String| s@),
        }
    }
}

impl EvalContext {
    /// The frame stack is never empty: the root frame persists for the
    /// context's whole lifetime.
    pub open spec fn wf(&self) -> bool {
        self@.frames.len() >= 1
    }

    /// A fresh context whose stack holds only the given root frame.
    pub fn new(root: EvalFrame) -> (r: Self)
        ensures
            r@.frames =~= seq![root@],
            r@.input =~= Seq::<Seq<char>>::empty(),
            r@.output =~= Seq::<Seq<char>>::empty(),
            r.wf(),
    {
        let r = EvalContext { frames: vec![root], input: Vec::new(), output: Vec::new() };
        proof {
            assert(r@.frames =~= seq![root@]);
        }
        r
    }

    /// Pushes a frame; it becomes the innermost scope.
    pub fn add_frame(&mut self, frame: EvalFrame)
        ensures
            final(self)@.frames =~= old(self)@.frames.push(frame@),
            final(self)@.input == old(self)@.input,
            final(self)@.output == old(self)@.output,
            final(self).wf(),
    {
        self.frames.push(frame);
        proof {
            assert(self@.frames =~= old(self)@.frames.push(frame@));
            assert(self@.input =~= old(self)@.input);
            assert(self@.output =~= old(self)@.output);
        }
    }

    /// Pops the innermost frame; the root frame is never popped.
    pub fn pop_frame(&mut self)
        requires
            old(self)@.frames.len() >= 2,
        ensures
            final(self)@.frames =~= old(self)@.frames.drop_last(),
            final(self)@.input == old(self)@.input,
            final(self)@.output == old(self)@.output,
            final(self).wf(),
    {
        self.frames.pop();
        proof {
            assert(self@.frames =~= old(self)@.frames.drop_last());
            assert(self@.input =~= old(self)@.input);
            assert(self@.output =~= old(self)@.output);
        }
    }

    /// Registers a global definition: binds `name` in the root frame,
    /// whatever the current call depth.
    pub fn add_function(&mut self, name: &String, value: &Value)
        requires
            old(self).wf(),
        ensures
            final(self)@.frames =~= old(self)@.frames.update(
                0,
                old(self)@.frames[0].insert(name@, value@),
            ),
            final(self)@.input == old(self)@.input,
            final(self)@.output == old(self)@.output,
            final(self).wf(),
    {
        let slot = &mut self.frames[0];
        slot.set(name.clone(), value.clone());
        proof {
            assert(self@.frames =~= old(self)@.frames.update(
                0,
                old(self)@.frames[0].insert(name@, value@),
            ));
            assert(self@.input =~= old(self)@.input);
            assert(self@.output =~= old(self)@.output);
        }
    }

    /// Binds `name` in the innermost frame, as `setq` does.
    pub fn set_local(&mut self, name: &String, value: &Value)
        requires
            old(self).wf(),
        ensures
            final(self)@.frames =~= old(self)@.frames.update(
                old(self)@.frames.len() - 1,
                old(self)@.frames.last().insert(name@, value@),
            ),
            final(self)@.input == old(self)@.input,
            final(self)@.output == old(self)@.output,
            final(self).wf(),
    {
        let last = self.frames.len() - 1;
        let slot = &mut self.frames[last];
        slot.set(name.clone(), value.clone());
        proof {
            assert(self@.frames =~= old(self)@.frames.update(
                old(self)@.frames.len() - 1,
                old(self)@.frames.last().insert(name@, value@),
            ));
            assert(self@.input =~= old(self)@.input);
            assert(self@.output =~= old(self)@.output);
        }
    }

    /// Resolves a name: the innermost binding wins, builtins are seen
    /// only where no frame binds the name.
    pub fn lookup_local(&self, name: &String) -> (r: Option<Value>)
        ensures
            match r {
                Some(v) => ctx_lookup(self@, name@) matches Some(w) && v@ == w,
                None => ctx_lookup(self@, name@) is None,
            },
    {
        proof {
            assert(self@.frames.subrange(0, self@.frames.len() as int) =~= self@.frames);
        }
        let r = self.lookup_frames(self.frames.len(), name);
        match r {
            Some(v) => Some(v),
            None => match lookup_builtin(name) {
                Some(k) => Some(Value::Symbol(crate::value::Function::Builtin(k))),
                None => None,
            },
        }
    }

    /// Searches the innermost `i` frames, top of the stack first.
    fn lookup_frames(&self, i: usize, name: &String) -> (r: Option<Value>)
        requires
            i <= self@.frames.len(),
        ensures
            match r {
                Some(v) => frames_lookup(self@.frames.subrange(0, i as int), name@) matches Some(w)
                    && v@ == w,
                None => frames_lookup(self@.frames.subrange(0, i as int), name@) is None,
            },
        decreases i,
    {
        if i == 0 {
            proof {
                assert(self@.frames.subrange(0, 0) =~= Seq::<FrameView>::empty());
            }
            None
        } else {
            proof {
                assert(self@.frames.subrange(0, i as int).drop_last() =~= self@.frames.subrange(
                    0,
                    i - 1,
                ));
                assert(self@.frames.subrange(0, i as int).last() == self@.frames[i - 1]);
            }
            match self.frames[i - 1].lookup(name) {
                Some(v) => Some(v),
                None => self.lookup_frames(i - 1, name),
            }
        }
    }

    /// Hands `read` its next line, oldest first.
    pub fn pop_input(&mut self) -> (r: Option<String>)
        ensures
            match r {
                Some(line) => old(self)@.input.len() > 0 && line@ == old(self)@.input[0]
                    && final(self)@.input =~= old(self)@.input.drop_first(),
                None => old(self)@.input.len() == 0 && final(self)@.input == old(self)@.input,
            },
            final(self)@.frames == old(self)@.frames,
            final(self)@.output == old(self)@.output,
    {
        if self.input.len() == 0 {
            None
        } else {
            let line = self.input.remove(0);
            proof {
                assert(self@.input =~= old(self)@.input.drop_first());
                assert(self@.frames =~= old(self)@.frames);
                assert(self@.output =~= old(self)@.output);
            }
            Some(line)
        }
    }

    /// Records one line of output, as `write` produces it.
    pub fn push_output(&mut self, line: String)
        ensures
            final(self)@.output =~= old(self)@.output.push(line@),
            final(self)@.frames == old(self)@.frames,
            final(self)@.input == old(self)@.input,
    {
        self.output.push(line);
        proof {
            assert(self@.output =~= old(self)@.output.push(line@));
            assert(self@.frames =~= old(self)@.frames);
            assert(self@.input =~= old(self)@.input);
        }
    }

    /// Queues a line for `read` to consume later.
    pub fn push_input(&mut self, line: String)
        ensures
            final(self)@.input =~= old(self)@.input.push(line@),
            final(self)@.frames == old(self)@.frames,
            final(self)@.output == old(self)@.output,
    {
        self.input.push(line);
        proof {
            assert(self@.input =~= old(self)@.input.push(line@));
            assert(self@.frames =~= old(self)@.frames);
            assert(self@.output =~= old(self)@.output);
        }
    }

    /// Removes and returns the accumulated output lines.
    pub fn take_output(&mut self) -> (r: Vec<String>)
        ensures
            r@.map_values(|s: String| s@) == old(self)@.output,
            final(self)@.output =~= Seq::<Seq<char>>::empty(),
            final(self)@.frames == old(self)@.frames,
            final(self)@.input == old(self)@.input,
    {
        let mut taken: Vec<String> = Vec::new();
        core::mem::swap(&mut taken, &mut self.output);
        proof {
            assert(self@.output =~= Seq::<Seq<char>>::empty());
            assert(self@.frames =~= old(self)@.frames);
            assert(self@.input =~= old(self)@.input);
        }
        taken
    }
}

/// Association lists with equal keys and view-equal values denote the
/// same map.
proof fn lemma_assoc_view_congruence(a: Seq<(String, Value)>, b: Seq<(String, Value)>)
    requires
        a.len() == b.len(),
        forall|i: int|
            0 <= i < a.len() ==> (#[trigger] a[i]).0 == b[i].0 && a[i].1@ == b[i].1@,
    ensures
        assoc_view(a) == assoc_view(b),
    decreases a.len(),
{
    if a.len() > 0 {
        lemma_assoc_view_congruence(a.drop_last(), b.drop_last());
        assert(a.last() == a[a.len() - 1]);
        assert(b.last() == b[b.len() - 1]);
        assert(assoc_view(a) =~= assoc_view(b));
    } else {
        assert(assoc_view(a) =~= assoc_view(b));
    }
}

impl Clone for EvalFrame {
    /// A copy with the same bindings.
    fn clone(&self) -> (r: Self)
        ensures
            r@ == self@,
    {
        let mut locals: Vec<(String, Value)> = Vec::new();
        let mut i: usize = 0;
        #[verifier::loop_isolation(false)]
        while i < self.locals.len()
            invariant
                i as int <= self.locals@.len(),
                locals@.len() == i as int,
                forall|j: int|
                    0 <= j < i as int ==> (#[trigger] locals@[j]).0 == self.locals@[j].0
                        && locals@[j].1@ == self.locals@[j].1@,
            decreases self.locals@.len() - i,
        {
            let entry = &self.locals[i];
            locals.push((entry.0.clone(), entry.1.clone()));
            i = i + 1;
        }
        proof {
            lemma_assoc_view_congruence(locals@, self.locals@);
        }
        EvalFrame { locals }
    }
}

impl Clone for EvalContext {
    /// A copy with the same frames, pending input and output log.
    fn clone(&self) -> (r: Self)
        ensures
            r@ == self@,
    {
        let mut frames: Vec<EvalFrame> = Vec::new();
        let mut i: usize = 0;
        #[verifier::loop_isolation(false)]
        while i < self.frames.len()
            invariant
                i as int <= self.frames@.len(),
                frames@.len() == i as int,
                forall|j: int| 0 <= j < i as int ==> (#[trigger] frames@[j])@ == self.frames@[j]@,
            decreases self.frames@.len() - i,
        {
            frames.push(self.frames[i].clone());
            i = i + 1;
        }
        let mut input: Vec<String> = Vec::new();
        let mut k: usize = 0;
        #[verifier::loop_isolation(false)]
        while k < self.input.len()
            invariant
                k as int <= self.input@.len(),
                input@.len() == k as int,
                forall|j: int| 0 <= j < k as int ==> (#[trigger] input@[j])@ == self.input@[j]@,
            decreases self.input@.len() - k,
        {
            input.push(self.input[k].clone());
            k = k + 1;
        }
        let mut output: Vec<String> = Vec::new();
        let mut m: usize = 0;
        #[verifier::loop_isolation(false)]
        while m < self.output.len()
            invariant
                m as int <= self.output@.len(),
                output@.len() == m as int,
                forall|j: int| 0 <= j < m as int ==> (#[trigger] output@[j])@ == self.output@[j]@,
            decreases self.output@.len() - m,
        {
            output.push(self.output[m].clone());
            m = m + 1;
        }
        let r = EvalContext { frames, input, output };
        proof {
            assert(r@.frames =~= self@.frames);
            assert(r@.input =~= self@.input);
            assert(r@.output =~= self@.output);
            assert(r@ =~= self@);
        }
        r
    }
}

} // verus!
