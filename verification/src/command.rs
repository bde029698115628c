//! Reversible document edits and the undo / redo history.

use vstd::prelude::*;
use crate::doc::Document;

verus! {

/// A reversible mutation of the document. Tools never change the document
/// directly; they hand commands to a [`CommandStack`].
///
/// Implementors promise that applying or undoing keeps a well-formed
/// document well-formed and never changes the command's label.
pub trait Command: Sized {
    /// The command's label, as `label` returns it. (Each of these spec
    /// functions has a default that claims nothing about the command; the
    /// library's commands define them all.)
    open spec fn spec_label(&self) -> Seq<char> {
        Seq::empty()
    }

    /// What `apply` does: `c1` and `d1` are the command and the document
    /// after `c0` was applied to `d0`.
    open spec fn apply_post(c0: Self, d0: Document, c1: Self, d1: Document) -> bool {
        true
    }

    /// What `undo` does: `c1` and `d1` are the command and the document
    /// after `c0` was undone on `d0`.
    open spec fn undo_post(c0: Self, d0: Document, c1: Self, d1: Document) -> bool {
        true
    }

    /// `apply` can run on `doc` without exhausting the document's storage.
    open spec fn apply_ready(&self, doc: &Document) -> bool {
        true
    }

    /// `undo` can run on `doc` without exhausting the document's storage.
    open spec fn undo_ready(&self, doc: &Document) -> bool {
        true
    }

    fn apply(&mut self, doc: &mut Document)
        requires
            old(self).apply_ready(old(doc)),
        ensures
            old(doc).wf() ==> final(doc).wf(),
            final(self).spec_label() == old(self).spec_label(),
            Self::apply_post(*old(self), *old(doc), *final(self), *final(doc)),
    ;

    fn undo(&mut self, doc: &mut Document)
        requires
            old(self).undo_ready(old(doc)),
        ensures
            old(doc).wf() ==> final(doc).wf(),
            final(self).spec_label() == old(self).spec_label(),
            Self::undo_post(*old(self), *old(doc), *final(self), *final(doc)),
    ;

    fn label(&self) -> (s: &str)
        ensures
            s@ == self.spec_label(),
    ;
}

/// The labels of a run of commands, oldest first.
pub open spec fn labels<C: Command>(s: Seq<C>) -> Seq<Seq<char>> {
    s.map_values(|c: C| c.spec_label())
}

/// Undo and redo history: the top of `undo` is the last applied command,
/// the top of `redo` the last undone one.
pub struct CommandStack<C> {
    undo: Vec<C>,
    redo: Vec<C>,
}

impl<C: Command> CommandStack<C> {
    /// Commands that can be undone, oldest first.
    pub closed spec fn undo_seq(&self) -> Seq<C> {
        self.undo@
    }

    /// Commands that can be redone, the next one to redo last.
    pub closed spec fn redo_seq(&self) -> Seq<C> {
        self.redo@
    }

    pub fn new() -> (s: Self)
        ensures
            s.undo_seq().len() == 0,
            s.redo_seq().len() == 0,
    {
        CommandStack { undo: Vec::new(), redo: Vec::new() }
    }

    /// `after` is `before` with one more command, labelled `label`, on top
    /// of the undo history, and an empty redo history.
    pub open spec fn pushed(before: Self, label: Seq<char>, after: Self) -> bool {
        &&& after.undo_seq().len() == before.undo_seq().len() + 1
        &&& after.undo_seq().drop_last() == before.undo_seq()
        &&& after.undo_seq().last().spec_label() == label
        &&& after.redo_seq().len() == 0
    }

    /// The outcome of `undo` returning `done`: when there was something to
    /// undo, its top moved (in its undone state) to the top of the redo
    /// history; otherwise nothing changed.
    pub open spec fn undone(before: Self, done: bool, after: Self) -> bool {
        &&& done == (before.undo_seq().len() > 0)
        &&& done ==> {
            &&& after.undo_seq() == before.undo_seq().drop_last()
            &&& after.redo_seq().len() == before.redo_seq().len() + 1
            &&& after.redo_seq().drop_last() == before.redo_seq()
            &&& after.redo_seq().last().spec_label() == before.undo_seq().last().spec_label()
        }
        &&& !done ==> after.undo_seq() == before.undo_seq() && after.redo_seq() == before.redo_seq()
    }

    /// The outcome of `redo` returning `done`: the mirror image of `undone`.
    pub open spec fn redone(before: Self, done: bool, after: Self) -> bool {
        &&& done == (before.redo_seq().len() > 0)
        &&& done ==> {
            &&& after.redo_seq() == before.redo_seq().drop_last()
            &&& after.undo_seq().len() == before.undo_seq().len() + 1
            &&& after.undo_seq().drop_last() == before.undo_seq()
            &&& after.undo_seq().last().spec_label() == before.redo_seq().last().spec_label()
        }
        &&& !done ==> after.undo_seq() == before.undo_seq() && after.redo_seq() == before.redo_seq()
    }

    /// Apply a fresh command and make it the top of the undo history; the
    /// redo history is dropped.
    pub fn push(&mut self, cmd: C, doc: &mut Document)
        requires
            cmd.apply_ready(old(doc)),
        ensures
            Self::pushed(*old(self), cmd.spec_label(), *final(self)),
            C::apply_post(cmd, *old(doc), final(self).undo_seq().last(), *final(doc)),
            old(doc).wf() ==> final(doc).wf(),
    {
        let mut cmd = cmd;
        cmd.apply(doc);
        self.undo.push(cmd);
        self.redo.clear();
        assert(self.undo@.drop_last() =~= old(self).undo@);
    }

    /// Record a command whose effect is already in the document (a live
    /// preview that ends in a single undo step).
    pub fn record_applied(&mut self, cmd: C)
        ensures
            final(self).undo_seq() == old(self).undo_seq().push(cmd),
            final(self).redo_seq().len() == 0,
    {
        self.undo.push(cmd);
        self.redo.clear();
    }

    /// Undo the top command, if any; say whether there was one.
    pub fn undo(&mut self, doc: &mut Document) -> (done: bool)
        requires
            old(self).undo_seq().len() > 0 ==> old(self).undo_seq().last().undo_ready(old(doc)),
        ensures
            Self::undone(*old(self), done, *final(self)),
            done ==> C::undo_post(old(self).undo_seq().last(), *old(doc), final(self).redo_seq().last(), *final(doc)),
            !done ==> *final(doc) == *old(doc),
            old(doc).wf() ==> final(doc).wf(),
    {
        match self.undo.pop() {
            Some(cmd) => {
                let mut cmd = cmd;
                cmd.undo(doc);
                self.redo.push(cmd);
                assert(self.redo@.drop_last() =~= old(self).redo@);
                true
            },
            None => false,
        }
    }

    /// Redo the top undone command, if any; say whether there was one.
    pub fn redo(&mut self, doc: &mut Document) -> (done: bool)
        requires
            old(self).redo_seq().len() > 0 ==> old(self).redo_seq().last().apply_ready(old(doc)),
        ensures
            Self::redone(*old(self), done, *final(self)),
            done ==> C::apply_post(old(self).redo_seq().last(), *old(doc), final(self).undo_seq().last(), *final(doc)),
            !done ==> *final(doc) == *old(doc),
            old(doc).wf() ==> final(doc).wf(),
    {
        match self.redo.pop() {
            Some(cmd) => {
                let mut cmd = cmd;
                cmd.apply(doc);
                self.undo.push(cmd);
                assert(self.undo@.drop_last() =~= old(self).undo@);
                true
            },
            None => false,
        }
    }

    pub fn can_undo(&self) -> (b: bool)
        ensures
            b == (self.undo_seq().len() > 0),
    {
        self.undo.len() > 0
    }

    pub fn can_redo(&self) -> (b: bool)
        ensures
            b == (self.redo_seq().len() > 0),
    {
        self.redo.len() > 0
    }

    /// Label of the command `undo` would undo.
    pub fn undo_label(&self) -> (r: Option<&str>)
        ensures
            r is None <==> self.undo_seq().len() == 0,
            r matches Some(s) ==> s@ == self.undo_seq().last().spec_label(),
    {
        let n = self.undo.len();
        if n == 0 {
            None
        } else {
            Some(self.undo[n - 1].label())
        }
    }

    /// Label of the command `redo` would redo.
    pub fn redo_label(&self) -> (r: Option<&str>)
        ensures
            r is None <==> self.redo_seq().len() == 0,
            r matches Some(s) ==> s@ == self.redo_seq().last().spec_label(),
    {
        let n = self.redo.len();
        if n == 0 {
            None
        } else {
            Some(self.redo[n - 1].label())
        }
    }

    /// Forget the whole history.
    pub fn clear(&mut self)
        ensures
            final(self).undo_seq().len() == 0,
            final(self).redo_seq().len() == 0,
    {
        self.undo.clear();
        self.redo.clear();
    }
}

impl<C: Command> Default for CommandStack<C> {
    fn default() -> (s: Self)
        ensures
            s.undo_seq().len() == 0,
            s.redo_seq().len() == 0,
    {
        Self::new()
    }
}

/// Undo followed by redo gives back the same history, label for label.
pub proof fn law_undo_then_redo<C: Command>(a: CommandStack<C>, b: CommandStack<C>, c: CommandStack<C>, d1: bool, d2: bool)
    requires
        CommandStack::undone(a, d1, b),
        CommandStack::redone(b, d2, c),
        d1,
    ensures
        d2,
        labels(c.undo_seq()) == labels(a.undo_seq()),
        labels(c.redo_seq()) == labels(a.redo_seq()),
{
    let u = a.undo_seq();
    assert(c.undo_seq() =~= b.undo_seq().push(c.undo_seq().last()));
    assert(u =~= u.drop_last().push(u.last()));
    assert(labels(c.undo_seq()) =~= labels(u));
    assert(labels(c.redo_seq()) =~= labels(a.redo_seq()));
}

/// Redo followed by undo gives back the same history, label for label.
pub proof fn law_redo_then_undo<C: Command>(a: CommandStack<C>, b: CommandStack<C>, c: CommandStack<C>, d1: bool, d2: bool)
    requires
        CommandStack::redone(a, d1, b),
        CommandStack::undone(b, d2, c),
        d1,
    ensures
        d2,
        labels(c.undo_seq()) == labels(a.undo_seq()),
        labels(c.redo_seq()) == labels(a.redo_seq()),
{
    let r = a.redo_seq();
    assert(c.redo_seq() =~= b.redo_seq().push(c.redo_seq().last()));
    assert(r =~= r.drop_last().push(r.last()));
    assert(labels(c.redo_seq()) =~= labels(r));
    assert(labels(c.undo_seq()) =~= labels(a.undo_seq()));
}

/// A command pushed and then undone leaves the undo history as it was and
/// is the only command that can be redone.
pub proof fn law_push_then_undo<C: Command>(a: CommandStack<C>, label: Seq<char>, b: CommandStack<C>, c: CommandStack<C>, d: bool)
    requires
        CommandStack::pushed(a, label, b),
        CommandStack::undone(b, d, c),
    ensures
        d,
        c.undo_seq() == a.undo_seq(),
        labels(c.redo_seq()) == seq![label],
{
    assert(labels(c.redo_seq()) =~= seq![label]);
}

/// After a push nothing can be redone, and the pushed command is the one
/// `undo` would undo next.
pub proof fn law_push_clears_redo<C: Command>(a: CommandStack<C>, label: Seq<char>, b: CommandStack<C>)
    requires
        CommandStack::pushed(a, label, b),
    ensures
        b.redo_seq().len() == 0,
        b.undo_seq().len() > 0,
        b.undo_seq().last().spec_label() == label,
{
}


/// `a` and `b` hold the same layers and nodes, the same layer order and the
/// same title, version and artboards.
pub open spec fn same_document(a: Document, b: Document) -> bool {
    &&& a.node_map() == b.node_map()
    &&& a.layer_map() == b.layer_map()
    &&& a.layers@ == b.layers@
    &&& a.same_meta(&b)
}

/// Redoing a command of type `C` after undoing it repeats its apply: the
/// command and the document end as the apply left them.
pub open spec fn redo_repeats_apply<C: Command>() -> bool {
    forall|c0: C, d0: Document, c1: C, d1: Document, c2: C, d2: Document, c3: C, d3: Document|
        #![trigger C::apply_post(c0, d0, c1, d1), C::undo_post(c1, d1, c2, d2), C::apply_post(c2, d2, c3, d3)]
        C::apply_post(c0, d0, c1, d1) && C::undo_post(c1, d1, c2, d2) && C::apply_post(c2, d2, c3, d3)
            ==> c3 == c1 && same_document(d3, d1)
}

/// Push, undo, redo: for commands whose redo repeats their apply, the
/// document is as the push left it, the pushed command is back on top of
/// the undo history, and nothing can be redone.
pub proof fn law_push_undo_redo<C: Command>(
    s0: CommandStack<C>,
    d0: Document,
    cmd: C,
    s1: CommandStack<C>,
    d1: Document,
    undone: bool,
    s2: CommandStack<C>,
    d2: Document,
    redone: bool,
    s3: CommandStack<C>,
    d3: Document,
)
    requires
        redo_repeats_apply::<C>(),
        CommandStack::pushed(s0, cmd.spec_label(), s1),
        C::apply_post(cmd, d0, s1.undo_seq().last(), d1),
        CommandStack::undone(s1, undone, s2),
        undone ==> C::undo_post(s1.undo_seq().last(), d1, s2.redo_seq().last(), d2),
        CommandStack::redone(s2, redone, s3),
        redone ==> C::apply_post(s2.redo_seq().last(), d2, s3.undo_seq().last(), d3),
    ensures
        undone,
        redone,
        same_document(d3, d1),
        s3.undo_seq() == s1.undo_seq(),
        s3.redo_seq().len() == 0,
{
    let c1 = s1.undo_seq().last();
    let c2 = s2.redo_seq().last();
    let c3 = s3.undo_seq().last();
    assert(C::apply_post(cmd, d0, c1, d1) && C::undo_post(c1, d1, c2, d2) && C::apply_post(c2, d2, c3, d3));
    assert(s3.undo_seq() =~= s1.undo_seq()) by {
        let u = s1.undo_seq();
        assert(u =~= u.drop_last().push(u.last()));
        assert(s3.undo_seq() =~= s2.undo_seq().push(c3));
    }
}

} // verus!
