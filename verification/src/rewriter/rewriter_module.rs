use vstd::prelude::*;
use crate::iface::debug_item::copy_debug_items;
use crate::iface::instruction::{instruction_copied, AnyInstruction, Instruction};
use crate::iface::method::{copy_try_blocks, try_blocks_view};
use crate::iface::reference::{clone_strings, strings_view};
use crate::immutable::immutable_class_def::{opt_text, ImmutableClassDef};
use crate::immutable::immutable_field::ImmutableField;
use crate::immutable::immutable_method::{ImmutableMethod, ImmutableMethodImplementation};

verus! {

/// `res` has the class, name, type and flags of `field`, and no hidden-API restrictions.
pub open spec fn field_copied(res: ImmutableField, field: ImmutableField) -> bool {
    &&& res.defining_class@ == field.defining_class@
    &&& res.name@ == field.name@
    &&& res.field_type@ == field.field_type@
    &&& res.access_flags == field.access_flags
    &&& res.hidden_api_restrictions == 0
}

/// `res` has the class, name, prototype and flags of `method`, no hidden-API restrictions, and
/// code exactly where `method` has code.
pub open spec fn method_header_copied(res: ImmutableMethod, method: ImmutableMethod) -> bool {
    &&& res.defining_class@ == method.defining_class@
    &&& res.name@ == method.name@
    &&& strings_view(res.parameter_types@) == strings_view(method.parameter_types@)
    &&& res.return_type@ == method.return_type@
    &&& res.access_flags == method.access_flags
    &&& res.hidden_api_restrictions == 0
    &&& (res.implementation is Some <==> method.implementation is Some)
}

/// `res` has the register count, try blocks and debug items of `imp`, and as many instructions.
pub open spec fn body_frame_copied(res: ImmutableMethodImplementation, imp: ImmutableMethodImplementation) -> bool {
    &&& res.register_count == imp.register_count
    &&& res.instructions@.len() == imp.instructions@.len()
    &&& try_blocks_view(res.try_blocks@) == try_blocks_view(imp.try_blocks@)
    &&& res.debug_items@ == imp.debug_items@
}

/// `res` has the type, flags, superclass, interfaces and source file of `class_def`, and as many
/// members of each kind.
pub open spec fn class_header_copied(res: ImmutableClassDef, class_def: ImmutableClassDef) -> bool {
    &&& res.type_descriptor@ == class_def.type_descriptor@
    &&& res.access_flags == class_def.access_flags
    &&& opt_text(res.superclass) == opt_text(class_def.superclass)
    &&& strings_view(res.interfaces@) == strings_view(class_def.interfaces@)
    &&& opt_text(res.source_file) == opt_text(class_def.source_file)
    &&& res.static_fields@.len() == class_def.static_fields@.len()
    &&& res.instance_fields@.len() == class_def.instance_fields@.len()
    &&& res.direct_methods@.len() == class_def.direct_methods@.len()
    &&& res.virtual_methods@.len() == class_def.virtual_methods@.len()
}

fn copy_opt_string(o: &Option<String>) -> (res: Option<String>)
    ensures
        opt_text(res) == opt_text(*o),
{
    match o {
        Some(s) => Some(s.clone()),
        None => None,
    }
}

/// A transformation of classes, member by member. Each step may be replaced; the steps that are
/// kept rebuild their part from the results of the finer steps.
pub trait RewriterModule {
    /// Rebuilds a class: its header is kept, each member goes through `rewrite_field` or
    /// `rewrite_method`, in order.
    fn rewrite_class_def(&self, class_def: &ImmutableClassDef) -> (res: ImmutableClassDef)
        default_ensures
            class_header_copied(res, *class_def),
            forall|i: int|
                0 <= i < class_def.static_fields@.len() ==> call_ensures(
                    Self::rewrite_field,
                    (self, &class_def.static_fields@[i]),
                    #[trigger] res.static_fields@[i],
                ),
            forall|i: int|
                0 <= i < class_def.instance_fields@.len() ==> call_ensures(
                    Self::rewrite_field,
                    (self, &class_def.instance_fields@[i]),
                    #[trigger] res.instance_fields@[i],
                ),
            forall|i: int|
                0 <= i < class_def.direct_methods@.len() ==> call_ensures(
                    Self::rewrite_method,
                    (self, &class_def.direct_methods@[i]),
                    #[trigger] res.direct_methods@[i],
                ),
            forall|i: int|
                0 <= i < class_def.virtual_methods@.len() ==> call_ensures(
                    Self::rewrite_method,
                    (self, &class_def.virtual_methods@[i]),
                    #[trigger] res.virtual_methods@[i],
                ),
    {
        let mut static_fields: Vec<ImmutableField> = Vec::new();
        let mut i: usize = 0;
        while i < class_def.static_fields.len()
            invariant
                i <= class_def.static_fields@.len(),
                static_fields@.len() == i,
                forall|k: int|
                    0 <= k < i ==> call_ensures(Self::rewrite_field, (self, &class_def.static_fields@[k]), #[trigger] static_fields@[k]),
            decreases class_def.static_fields.len() - i,
        {
            let r = self.rewrite_field(&class_def.static_fields[i]);
            static_fields.push(r);
            i += 1;
        }
        let mut instance_fields: Vec<ImmutableField> = Vec::new();
        let mut i: usize = 0;
        while i < class_def.instance_fields.len()
            invariant
                i <= class_def.instance_fields@.len(),
                instance_fields@.len() == i,
                forall|k: int|
                    0 <= k < i ==> call_ensures(Self::rewrite_field, (self, &class_def.instance_fields@[k]), #[trigger] instance_fields@[k]),
            decreases class_def.instance_fields.len() - i,
        {
            let r = self.rewrite_field(&class_def.instance_fields[i]);
            instance_fields.push(r);
            i += 1;
        }
        let mut direct_methods: Vec<ImmutableMethod> = Vec::new();
        let mut i: usize = 0;
        while i < class_def.direct_methods.len()
            invariant
                i <= class_def.direct_methods@.len(),
                direct_methods@.len() == i,
                forall|k: int|
                    0 <= k < i ==> call_ensures(Self::rewrite_method, (self, &class_def.direct_methods@[k]), #[trigger] direct_methods@[k]),
            decreases class_def.direct_methods.len() - i,
        {
            let r = self.rewrite_method(&class_def.direct_methods[i]);
            direct_methods.push(r);
            i += 1;
        }
        let mut virtual_methods: Vec<ImmutableMethod> = Vec::new();
        let mut i: usize = 0;
        while i < class_def.virtual_methods.len()
            invariant
                i <= class_def.virtual_methods@.len(),
                virtual_methods@.len() == i,
                forall|k: int|
                    0 <= k < i ==> call_ensures(Self::rewrite_method, (self, &class_def.virtual_methods@[k]), #[trigger] virtual_methods@[k]),
            decreases class_def.virtual_methods.len() - i,
        {
            let r = self.rewrite_method(&class_def.virtual_methods[i]);
            virtual_methods.push(r);
            i += 1;
        }
        ImmutableClassDef {
            type_descriptor: class_def.type_descriptor.clone(),
            access_flags: class_def.access_flags,
            superclass: copy_opt_string(&class_def.superclass),
            interfaces: clone_strings(&class_def.interfaces),
            source_file: copy_opt_string(&class_def.source_file),
            static_fields,
            instance_fields,
            direct_methods,
            virtual_methods,
        }
    }

    /// Rebuilds a method: its header is kept, without hidden-API restrictions, and its code goes
    /// through `rewrite_method_impl`.
    fn rewrite_method(&self, method: &ImmutableMethod) -> (res: ImmutableMethod)
        default_ensures
            method_header_copied(res, *method),
            match (res.implementation, method.implementation) {
                (Some(r), Some(m)) => call_ensures(Self::rewrite_method_impl, (self, &m), r),
                _ => true,
            },
    {
        let implementation = match &method.implementation {
            Some(imp) => Some(self.rewrite_method_impl(imp)),
            None => None,
        };
        ImmutableMethod {
            defining_class: method.defining_class.clone(),
            name: method.name.clone(),
            parameter_types: clone_strings(&method.parameter_types),
            return_type: method.return_type.clone(),
            access_flags: method.access_flags,
            hidden_api_restrictions: 0,
            implementation,
        }
    }

    /// Rebuilds a field with its class, name, type and flags, and no hidden-API restrictions.
    fn rewrite_field(&self, field: &ImmutableField) -> (res: ImmutableField)
        default_ensures
            field_copied(res, *field),
    {
        ImmutableField {
            defining_class: field.defining_class.clone(),
            name: field.name.clone(),
            field_type: field.field_type.clone(),
            access_flags: field.access_flags,
            hidden_api_restrictions: 0,
        }
    }

    /// Rebuilds a method body: the register count, try blocks and debug items are kept, and each
    /// instruction goes through `rewrite_instruction`, in order.
    fn rewrite_method_impl(&self, impl_data: &ImmutableMethodImplementation) -> (res: ImmutableMethodImplementation)
        default_ensures
            body_frame_copied(res, *impl_data),
            forall|i: int|
                0 <= i < impl_data.instructions@.len() ==> call_ensures(
                    Self::rewrite_instruction,
                    (self, &impl_data.instructions@[i]),
                    #[trigger] res.instructions@[i],
                ),
    {
        let mut instructions: Vec<AnyInstruction> = Vec::new();
        let mut i: usize = 0;
        while i < impl_data.instructions.len()
            invariant
                i <= impl_data.instructions@.len(),
                instructions@.len() == i,
                forall|k: int|
                    0 <= k < i ==> call_ensures(
                        Self::rewrite_instruction,
                        (self, &impl_data.instructions@[k]),
                        #[trigger] instructions@[k],
                    ),
            decreases impl_data.instructions.len() - i,
        {
            let r = self.rewrite_instruction(&impl_data.instructions[i]);
            instructions.push(r);
            i += 1;
        }
        ImmutableMethodImplementation {
            register_count: impl_data.register_count,
            instructions,
            try_blocks: copy_try_blocks(impl_data.try_blocks.as_slice()),
            debug_items: copy_debug_items(impl_data.debug_items.as_slice()),
        }
    }

    /// A copy of the instruction, of the same kind and opcode.
    fn rewrite_instruction(&self, instruction: &AnyInstruction) -> (res: AnyInstruction)
        default_ensures
            instruction_copied(*instruction, res),
    {
        instruction.clone_boxed()
    }
}

/// The module that keeps every step as it is by default: a rewrite through it copies each class.
pub struct PassThroughRewriter;

impl RewriterModule for PassThroughRewriter {}

/// `res` is a copy of `imp`: the same frame, and a copy of each instruction.
pub open spec fn body_copied(res: ImmutableMethodImplementation, imp: ImmutableMethodImplementation) -> bool {
    &&& body_frame_copied(res, imp)
    &&& forall|i: int|
        0 <= i < imp.instructions@.len() ==> instruction_copied(imp.instructions@[i], #[trigger] res.instructions@[i])
}

/// `res` is a copy of `method`, its body included.
pub open spec fn method_copied(res: ImmutableMethod, method: ImmutableMethod) -> bool {
    &&& method_header_copied(res, method)
    &&& match (res.implementation, method.implementation) {
        (Some(r), Some(m)) => body_copied(r, m),
        _ => true,
    }
}

/// `res` is a copy of `class_def`, its members included.
pub open spec fn class_copied(res: ImmutableClassDef, class_def: ImmutableClassDef) -> bool {
    &&& class_header_copied(res, class_def)
    &&& forall|i: int|
        0 <= i < class_def.static_fields@.len() ==> field_copied(
            #[trigger] res.static_fields@[i],
            class_def.static_fields@[i],
        )
    &&& forall|i: int|
        0 <= i < class_def.instance_fields@.len() ==> field_copied(
            #[trigger] res.instance_fields@[i],
            class_def.instance_fields@[i],
        )
    &&& forall|i: int|
        0 <= i < class_def.direct_methods@.len() ==> method_copied(
            #[trigger] res.direct_methods@[i],
            class_def.direct_methods@[i],
        )
    &&& forall|i: int|
        0 <= i < class_def.virtual_methods@.len() ==> method_copied(
            #[trigger] res.virtual_methods@[i],
            class_def.virtual_methods@[i],
        )
}

proof fn lemma_pass_through_method(m: ImmutableMethod, r: ImmutableMethod)
    requires
        call_ensures(PassThroughRewriter::rewrite_method, (&PassThroughRewriter, &m), r),
    ensures
        method_copied(r, m),
{
    match (r.implementation, m.implementation) {
        (Some(ri), Some(mi)) => {
            assert forall|i: int| 0 <= i < mi.instructions@.len() implies instruction_copied(
                mi.instructions@[i],
                #[trigger] ri.instructions@[i],
            ) by {
                assert(call_ensures(
                    PassThroughRewriter::rewrite_instruction,
                    (&PassThroughRewriter, &mi.instructions@[i]),
                    ri.instructions@[i],
                ));
            }
        },
        _ => {},
    }
}

/// What a pass-through module returns for a class is a copy of it, members included.
pub proof fn lemma_pass_through_copies_class(class_def: ImmutableClassDef, res: ImmutableClassDef)
    requires
        call_ensures(PassThroughRewriter::rewrite_class_def, (&PassThroughRewriter, &class_def), res),
    ensures
        class_copied(res, class_def),
{
    assert forall|i: int| 0 <= i < class_def.direct_methods@.len() implies method_copied(
        #[trigger] res.direct_methods@[i],
        class_def.direct_methods@[i],
    ) by {
        lemma_pass_through_method(class_def.direct_methods@[i], res.direct_methods@[i]);
    }
    assert forall|i: int| 0 <= i < class_def.virtual_methods@.len() implies method_copied(
        #[trigger] res.virtual_methods@[i],
        class_def.virtual_methods@[i],
    ) by {
        lemma_pass_through_method(class_def.virtual_methods@[i], res.virtual_methods@[i]);
    }
}

} // verus!
