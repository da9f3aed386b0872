//! Resolvability checking and one-level flatten expansion.
//!
//! A definition is resolvable when every flattened field's referenced type is
//! currently registered. Expansion replaces each flattened field with the
//! referenced record's fields, tagged with their origin group; a flattened
//! field whose referenced type is missing degrades to a placeholder with an
//! explanatory note.

use vstd::prelude::*;
use vstd::string::StringExecFns;

use crate::casing::{apply_field_name_transformation, spec_transformed};
use crate::model::{CaseStyle, FieldModel, StructInfo, StructModel};
use crate::registry::{get_registered_struct, StructRegistry};

verus! {

/// Whether every flattened field's referenced type is currently registered.
pub open spec fn spec_resolvable(
    reg: Map<Seq<char>, StructModel>,
    fields: Seq<FieldModel>,
) -> bool {
    forall|i: int|
        0 <= i < fields.len() ==> (#[trigger] fields[i].clap_attrs.flatten
            ==> reg.contains_key(fields[i].field_type))
}

/// Checks whether a definition can be generated immediately: it is trivially
/// true for a definition with no flattened fields, and false as soon as one
/// flattened field's referenced type is missing from the registry.
pub fn can_generate_immediately(registry: &StructRegistry, struct_info: &StructInfo) -> (r: bool)
    requires
        registry.wf(),
    ensures
        r == spec_resolvable(registry@, struct_info@.fields),
{
    let ghost mfields = struct_info@.fields;
    let mut i: usize = 0;
    while i < struct_info.fields.len()
        invariant
            i <= mfields.len(),
            registry.wf(),
            mfields == struct_info@.fields,
            struct_info.fields@.len() == mfields.len(),
            forall|j: int|
                0 <= j < i ==> (#[trigger] mfields[j].clap_attrs.flatten ==> registry@.contains_key(
                    mfields[j].field_type,
                )),
        decreases mfields.len() - i,
    {
        let field = &struct_info.fields[i];
        if field.clap_attrs.flatten && !registry.contains_key(field.field_type.as_str()) {
            proof {
                assert(mfields[i as int].clap_attrs.flatten);
            }
            return false;  // Missing dependency
        }
        i += 1;
    }
    true
}

/// The explanatory note carried by a placeholder for an unregistered
/// flattened reference.
pub open spec fn spec_note(ty: Seq<char>) -> Seq<char> {
    "Note: This field is flattened from "@ + ty + " (not registered)"@
}

/// How one declared field expands: a plain field is kept as-is, a flattened
/// field whose referenced type is registered is replaced by that record's
/// fields (renamed by the requesting record's case convention and grouped
/// under the referenced type's name), and a flattened field whose referenced
/// type is missing degrades to a single placeholder carrying a note.
pub open spec fn spec_expand_field(
    reg: Map<Seq<char>, StructModel>,
    rename: Option<CaseStyle>,
    f: FieldModel,
) -> Seq<FieldModel> {
    if !f.clap_attrs.flatten {
        seq![f]
    } else if reg.contains_key(f.field_type) {
        reg[f.field_type].fields.map_values(
            |nf: FieldModel|
                FieldModel {
                    name: spec_transformed(rename, nf.name),
                    group: f.field_type,
                    ..nf
                },
        )
    } else {
        seq![FieldModel { doc_comment: Some(spec_note(f.field_type)), ..f }]
    }
}

/// One level of expansion over a whole field list, in declaration order.
pub open spec fn spec_expand_fields(
    reg: Map<Seq<char>, StructModel>,
    rename: Option<CaseStyle>,
    fields: Seq<FieldModel>,
) -> Seq<FieldModel>
    decreases fields.len(),
{
    if fields.len() == 0 {
        Seq::empty()
    } else {
        spec_expand_fields(reg, rename, fields.drop_last()) + spec_expand_field(
            reg,
            rename,
            fields.last(),
        )
    }
}

/// The size the expansion must have: one row per plain field, plus the
/// referenced record's field count for each flattened field whose type is
/// registered, plus one placeholder per unresolved flattened field.
pub open spec fn spec_expanded_len(
    reg: Map<Seq<char>, StructModel>,
    fields: Seq<FieldModel>,
) -> int
    decreases fields.len(),
{
    if fields.len() == 0 {
        0
    } else {
        spec_expanded_len(reg, fields.drop_last()) + (
        if fields.last().clap_attrs.flatten && reg.contains_key(fields.last().field_type) {
            reg[fields.last().field_type].fields.len() as int
        } else {
            1
        })
    }
}

/// Expansion completeness: the expanded field count equals the number of
/// non-flattened fields plus the field counts of every directly flattened
/// referenced record (unresolved flattened fields each contribute their
/// single placeholder).
pub proof fn lemma_expansion_complete(
    reg: Map<Seq<char>, StructModel>,
    rename: Option<CaseStyle>,
    fields: Seq<FieldModel>,
)
    ensures
        spec_expand_fields(reg, rename, fields).len() == spec_expanded_len(reg, fields),
    decreases fields.len(),
{
    if fields.len() > 0 {
        lemma_expansion_complete(reg, rename, fields.drop_last());
    }
}

/// Replaces each flattened field of a resolvable definition with the
/// referenced record's fields; a flattened field without a registered
/// referent is kept, with a note that the reference is unregistered.
pub fn expand_nested_structs(registry: &StructRegistry, struct_info: StructInfo) -> (r: StructInfo)
    requires
        registry.wf(),
    ensures
        r@.name == struct_info@.name,
        r@.rename_all == struct_info@.rename_all,
        r@.fields == spec_expand_fields(registry@, struct_info@.rename_all, struct_info@.fields),
{
    let ghost mfields = struct_info@.fields;
    let ghost rename = struct_info@.rename_all;
    let mut expanded_fields: Vec<crate::model::FieldInfo> = Vec::new();
    let mut i: usize = 0;
    while i < struct_info.fields.len()
        invariant
            i <= mfields.len(),
            registry.wf(),
            mfields == struct_info@.fields,
            rename == struct_info@.rename_all,
            struct_info.fields@.len() == mfields.len(),
            expanded_fields@.map_values(|f: crate::model::FieldInfo| f@) =~= spec_expand_fields(
                registry@,
                rename,
                mfields.take(i as int),
            ),
        decreases mfields.len() - i,
    {
        let ghost pre = expanded_fields@.map_values(|f: crate::model::FieldInfo| f@);
        let field = &struct_info.fields[i];
        proof {
            assert(mfields.take(i + 1).drop_last() =~= mfields.take(i as int));
            assert(mfields.take(i + 1).last() == mfields[i as int]);
        }
        if field.clap_attrs.flatten {
            match get_registered_struct(registry, field.field_type.as_str()) {
                Some(nested_struct) => {
                    let ghost target = spec_expand_field(registry@, rename, mfields[i as int]);
                    let ghost nmodels = nested_struct@.fields;
                    proof {
                        assert(nested_struct@ == registry@[mfields[i as int].field_type]);
                    }
                    let mut j: usize = 0;
                    while j < nested_struct.fields.len()
                        invariant
                            j <= nmodels.len(),
                            i < mfields.len(),
                            rename == struct_info@.rename_all,
                            nested_struct.fields@.len() == nmodels.len(),
                            nmodels == nested_struct@.fields,
                            target.len() == nmodels.len(),
                            forall|k: int|
                                0 <= k < nmodels.len() ==> #[trigger] target[k] == (FieldModel {
                                    name: spec_transformed(rename, nmodels[k].name),
                                    group: mfields[i as int].field_type,
                                    ..nmodels[k]
                                }),
                            field@ == mfields[i as int],
                            expanded_fields@.map_values(|f: crate::model::FieldInfo| f@) =~= pre
                                + target.take(j as int),
                        decreases nmodels.len() - j,
                    {
                        let mut expanded_field = nested_struct.fields[j].clone();
                        expanded_field.group = field.field_type.clone();
                        expanded_field.name = apply_field_name_transformation(
                            nested_struct.fields[j].name.as_str(),
                            &struct_info.clap_rename_all,
                        );
                        expanded_fields.push(expanded_field);
                        proof {
                            assert(expanded_field@ == target[j as int]);
                            assert(pre + target.take(j + 1) =~= (pre + target.take(
                                j as int,
                            )).push(target[j as int]));
                            assert(expanded_fields@.map_values(
                                |f: crate::model::FieldInfo| f@,
                            ) =~= pre + target.take(j + 1));
                        }
                        j += 1;
                    }
                    proof {
                        assert(target.take(nmodels.len() as int) =~= target);
                        assert(expanded_fields@.map_values(|f: crate::model::FieldInfo| f@)
                            =~= spec_expand_fields(registry@, rename, mfields.take(i + 1)));
                    }
                },
                None => {
                    let mut note = String::from_str("Note: This field is flattened from ");
                    note.append(field.field_type.as_str());
                    note.append(" (not registered)");
                    let mut expanded_field = field.clone();
                    expanded_field.doc_comment = Some(note);
                    expanded_fields.push(expanded_field);
                    proof {
                        assert(expanded_fields@.map_values(|f: crate::model::FieldInfo| f@)
                            =~= spec_expand_fields(registry@, rename, mfields.take(i + 1)));
                    }
                },
            }
        } else {
            expanded_fields.push(field.clone());
            proof {
                assert(expanded_fields@.map_values(|f: crate::model::FieldInfo| f@)
                    =~= spec_expand_fields(registry@, rename, mfields.take(i + 1)));
            }
        }
        i += 1;
    }
    proof {
        assert(mfields.take(mfields.len() as int) =~= mfields);
    }
    StructInfo {
        name: struct_info.name,
        fields: expanded_fields,
        clap_rename_all: struct_info.clap_rename_all,
    }
}

/// Expansion reads only the entries that the flattened fields reference: two
/// registries that agree on those types expand a definition identically,
/// whatever else either one holds. This is what makes the final rendering
/// independent of the order in which unrelated declarations were processed.
pub proof fn lemma_expansion_reads_only_referenced(
    reg1: Map<Seq<char>, StructModel>,
    reg2: Map<Seq<char>, StructModel>,
    rename: Option<CaseStyle>,
    fields: Seq<FieldModel>,
)
    requires
        forall|i: int|
            0 <= i < fields.len() && #[trigger] fields[i].clap_attrs.flatten ==> {
                &&& reg1.contains_key(fields[i].field_type) == reg2.contains_key(
                    fields[i].field_type,
                )
                &&& reg1.contains_key(fields[i].field_type) ==> reg1[fields[i].field_type]
                    == reg2[fields[i].field_type]
            },
    ensures
        spec_expand_fields(reg1, rename, fields) == spec_expand_fields(reg2, rename, fields),
    decreases fields.len(),
{
    if fields.len() > 0 {
        assert(forall|i: int|
            0 <= i < fields.drop_last().len() ==> fields.drop_last()[i] == fields[i]);
        lemma_expansion_reads_only_referenced(reg1, reg2, rename, fields.drop_last());
        assert(fields[fields.len() - 1] == fields.last());
        assert(spec_expand_field(reg1, rename, fields.last()) == spec_expand_field(
            reg2,
            rename,
            fields.last(),
        ));
    }
}

} // verus!
