use vstd::prelude::*;
use crate::base::opcode::Opcode;
use crate::immutable::immutable_class_def::{str_equal, ImmutableClassDef};
use crate::rewriter::rewriter_module::{
    class_copied, lemma_pass_through_copies_class, PassThroughRewriter, RewriterModule,
};

verus! {

/// `rewritten` holds, in order, one result of `module.rewrite_class_def` for each class of
/// `classes`.
pub open spec fn rewrites_each<M: RewriterModule>(
    module: &M,
    classes: Seq<ImmutableClassDef>,
    rewritten: Seq<ImmutableClassDef>,
) -> bool {
    &&& rewritten.len() == classes.len()
    &&& forall|i: int|
        0 <= i < classes.len() ==> call_ensures(M::rewrite_class_def, (module, &classes[i]), #[trigger] rewritten[i])
}

/// Applies a rewriter module to classes.
pub struct DexRewriter<'a, M: RewriterModule> {
    module: &'a M,
}

impl<'a, M: RewriterModule> DexRewriter<'a, M> {
    /// The module that the rewriter applies.
    pub closed spec fn module(&self) -> &'a M {
        self.module
    }

    pub fn new(module: &'a M) -> (res: Self)
        ensures
            res.module() == module,
    {
        DexRewriter { module }
    }

    /// Every class of a file through the module, in order.
    pub fn rewrite_dex_file(&self, dex_file: &RewrittenDexFile) -> (res: RewrittenDexFile)
        ensures
            rewrites_each(self.module(), dex_file.class_defs@, res.class_defs@),
    {
        self.rewrite_classes(dex_file.class_defs.as_slice())
    }

    /// Every class of a list through the module, in order.
    pub fn rewrite_classes(&self, classes: &[ImmutableClassDef]) -> (res: RewrittenDexFile)
        ensures
            rewrites_each(self.module(), classes@, res.class_defs@),
    {
        let mut class_defs: Vec<ImmutableClassDef> = Vec::new();
        let mut i: usize = 0;
        while i < classes.len()
            invariant
                i <= classes@.len(),
                class_defs@.len() == i,
                forall|k: int|
                    0 <= k < i ==> call_ensures(
                        M::rewrite_class_def,
                        (self.module(), &classes@[k]),
                        #[trigger] class_defs@[k],
                    ),
            decreases classes.len() - i,
        {
            let r = self.rewrite_class_def(&classes[i]);
            class_defs.push(r);
            i += 1;
        }
        RewrittenDexFile { class_defs }
    }

    /// One class through the module.
    pub fn rewrite_class_def(&self, class_def: &ImmutableClassDef) -> (res: ImmutableClassDef)
        ensures
            call_ensures(M::rewrite_class_def, (self.module(), class_def), res),
    {
        self.module.rewrite_class_def(class_def)
    }
}

/// The classes that a rewrite produced.
#[derive(Debug)]
pub struct RewrittenDexFile {
    pub class_defs: Vec<ImmutableClassDef>,
}

impl RewrittenDexFile {
    pub fn classes(&self) -> (res: &[ImmutableClassDef])
        ensures
            res@ == self.class_defs@,
    {
        self.class_defs.as_slice()
    }

    pub fn classes_mut(&mut self) -> (res: &mut Vec<ImmutableClassDef>)
        ensures
            *res == old(self).class_defs,
            final(self).class_defs == *final(res),
    {
        &mut self.class_defs
    }

    /// The first class whose type descriptor is `type_descriptor`.
    pub fn find_class_by_name(&self, type_descriptor: &str) -> (res: Option<&ImmutableClassDef>)
        ensures
            res matches Some(c) ==> exists|i: int|
                0 <= i < self.class_defs@.len() && self.class_defs@[i] == *c
                    && c.type_descriptor@ == type_descriptor@
                    && forall|k: int| 0 <= k < i ==> self.class_defs@[k].type_descriptor@ != type_descriptor@,
            res is None ==> forall|k: int|
                0 <= k < self.class_defs@.len() ==> self.class_defs@[k].type_descriptor@ != type_descriptor@,
    {
        let mut i: usize = 0;
        while i < self.class_defs.len()
            invariant
                i <= self.class_defs@.len(),
                forall|k: int| 0 <= k < i ==> self.class_defs@[k].type_descriptor@ != type_descriptor@,
            decreases self.class_defs.len() - i,
        {
            if str_equal(self.class_defs[i].type_descriptor.as_str(), type_descriptor) {
                return Some(&self.class_defs[i]);
            }
            i += 1;
        }
        None
    }

    /// The opcode set of a rewritten file, which records none: always `Nop`.
    pub fn opcodes(&self) -> (res: Opcode)
        ensures
            res == Opcode::Nop,
    {
        Opcode::Nop
    }
}

/// A rewrite through the pass-through module gives a copy of each class, in order.
pub proof fn lemma_pass_through_rewrite(classes: Seq<ImmutableClassDef>, rewritten: Seq<ImmutableClassDef>)
    requires
        rewrites_each(&PassThroughRewriter, classes, rewritten),
    ensures
        rewritten.len() == classes.len(),
        forall|i: int| 0 <= i < classes.len() ==> class_copied(#[trigger] rewritten[i], classes[i]),
{
    assert forall|i: int| 0 <= i < classes.len() implies class_copied(#[trigger] rewritten[i], classes[i]) by {
        lemma_pass_through_copies_class(classes[i], rewritten[i]);
    }
}

} // verus!
