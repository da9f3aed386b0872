//! The table renderer: turns an expanded record definition into markdown
//! reference tables, flat (one table with a Group column) or grouped (one
//! headed section per origin group).
//!
//! The per-field cell derivation is verified logic; the markdown layout of a
//! grid of cells comes from the `tabled` crate and is a pure function of the
//! cell texts, named by an uninterpreted function.

use vstd::prelude::*;
use vstd::string::StringExecFns;

use crate::casing::{apply_field_name_transformation, spec_transformed};
use crate::groups::{
    group_map_get, group_map_len, group_map_new, group_map_push, lemma_group_indices_select,
    lemma_group_names_distinct, lemma_key_index, lemma_unseen_group_empty, spec_fields_of_group,
    spec_group_indices, spec_group_names, spec_key_index,
};
use crate::model::{AttrsModel, CaseStyle, FieldInfo, FieldModel, OutputFormat, StructInfo,
    StructModel};

verus! {

pub uninterp spec fn markdown_table_of(cells: Seq<Seq<Seq<char>>>) -> Seq<char>;

/// Relies on tabled's `Builder`, `Table::with` and `Style::markdown`: the
/// rendered markdown grid depends on the cell texts alone. The first record
/// is rendered as the header row.
#[verifier::external_body]
fn render_markdown_table(rows: Vec<Vec<String>>) -> (r: String)
    ensures
        r@ == markdown_table_of(rows.deep_view()),
{
    let mut table = tabled::builder::Builder::from(rows).build();
    table.with(tabled::settings::Style::markdown());
    table.to_string()
}

/// Whether a field must be given a value: "No" exactly when a default
/// literal or a default expression is declared, else "Yes".
pub open spec fn spec_required_text(a: AttrsModel) -> Seq<char> {
    if a.default_value is Some || a.default_value_t is Some {
        "No"@
    } else {
        "Yes"@
    }
}

/// The displayed default: the declared literal, else the declared default
/// expression's text, else a placeholder dash.
pub open spec fn spec_default_text(a: AttrsModel) -> Seq<char> {
    match a.default_value {
        Some(d) => d,
        None => match a.default_value_t {
            Some(t) => t,
            None => "-"@,
        },
    }
}

/// The displayed details: the documentation text, else empty.
pub open spec fn spec_details_text(f: FieldModel) -> Seq<char> {
    match f.doc_comment {
        Some(d) => d,
        None => Seq::empty(),
    }
}

/// Required/default duality: a field's Required cell says "No" exactly when
/// a default literal or a default expression is present.
pub proof fn lemma_required_default_duality(a: AttrsModel)
    ensures
        (spec_required_text(a) == "No"@) <==> (a.default_value is Some
            || a.default_value_t is Some),
{
    reveal_strlit("No");
    reveal_strlit("Yes");
    assert("No"@.len() == 2);
    assert("Yes"@.len() == 3);
}

fn required_text(a: &crate::model::ClapAttrs) -> (r: String)
    ensures
        r@ == spec_required_text(a@),
{
    if a.default_value.is_some() || a.default_value_t.is_some() {
        String::from_str("No")
    } else {
        String::from_str("Yes")
    }
}

fn default_text(a: &crate::model::ClapAttrs) -> (r: String)
    ensures
        r@ == spec_default_text(a@),
{
    match &a.default_value {
        Some(d) => d.clone(),
        None => match &a.default_value_t {
            Some(t) => t.clone(),
            None => String::from_str("-"),
        },
    }
}

fn details_text(f: &FieldInfo) -> (r: String)
    ensures
        r@ == spec_details_text(f@),
{
    match &f.doc_comment {
        Some(d) => d.clone(),
        None => String::new(),
    }
}

/// The column headers of the flat format.
pub open spec fn spec_flat_header() -> Seq<Seq<char>> {
    seq!["Field Name"@, "Type"@, "Required"@, "Default"@, "Details"@, "Group"@]
}

/// One body row of the flat format.
pub open spec fn spec_flat_row(rename: Option<CaseStyle>, f: FieldModel) -> Seq<Seq<char>> {
    seq![
        spec_transformed(rename, f.name),
        f.field_type,
        spec_required_text(f.clap_attrs),
        spec_default_text(f.clap_attrs),
        spec_details_text(f),
        f.group,
    ]
}

/// The full cell grid of the flat format: headers, then one row per field in
/// definition order.
pub open spec fn spec_flat_cells(s: StructModel) -> Seq<Seq<Seq<char>>> {
    seq![spec_flat_header()] + s.fields.map_values(|f: FieldModel| spec_flat_row(s.rename_all, f))
}

/// The flat rendering of a definition.
pub open spec fn spec_flat_table(s: StructModel) -> Seq<char> {
    markdown_table_of(spec_flat_cells(s))
}

fn flat_header() -> (r: Vec<String>)
    ensures
        r.deep_view() == spec_flat_header(),
{
    let mut row: Vec<String> = Vec::new();
    row.push(String::from_str("Field Name"));
    row.push(String::from_str("Type"));
    row.push(String::from_str("Required"));
    row.push(String::from_str("Default"));
    row.push(String::from_str("Details"));
    row.push(String::from_str("Group"));
    proof {
        assert(row.deep_view() =~= spec_flat_header());
    }
    row
}

fn flat_row(field: &FieldInfo, rename_all: &Option<CaseStyle>) -> (r: Vec<String>)
    ensures
        r.deep_view() == spec_flat_row(*rename_all, field@),
{
    let mut row: Vec<String> = Vec::new();
    row.push(apply_field_name_transformation(field.name.as_str(), rename_all));
    row.push(field.field_type.clone());
    row.push(required_text(&field.clap_attrs));
    row.push(default_text(&field.clap_attrs));
    row.push(details_text(field));
    row.push(field.group.clone());
    proof {
        assert(row.deep_view() =~= spec_flat_row(*rename_all, field@));
    }
    row
}

/// Renders the flat format: one markdown table over every field, with its
/// origin group as the last column.
pub fn generate_flat_table(struct_info: &StructInfo) -> (r: String)
    ensures
        r@ == spec_flat_table(struct_info@),
{
    let ghost mfields = struct_info@.fields;
    let mut rows: Vec<Vec<String>> = Vec::new();
    rows.push(flat_header());
    let mut i: usize = 0;
    while i < struct_info.fields.len()
        invariant
            i <= mfields.len(),
            mfields == struct_info@.fields,
            struct_info.fields@.len() == mfields.len(),
            rows.deep_view() =~= seq![spec_flat_header()] + mfields.take(i as int).map_values(
                |f: FieldModel| spec_flat_row(struct_info@.rename_all, f),
            ),
        decreases mfields.len() - i,
    {
        let ghost pre = rows.deep_view();
        let row = flat_row(&struct_info.fields[i], &struct_info.clap_rename_all);
        rows.push(row);
        proof {
            assert(rows@.drop_last() == rows@.subrange(0, rows@.len() - 1));
            assert(rows.deep_view() =~= pre.push(row.deep_view()));
            assert(mfields.take(i + 1).drop_last() =~= mfields.take(i as int));
            assert(rows.deep_view() =~= seq![spec_flat_header()] + mfields.take(i + 1).map_values(
                |f: FieldModel| spec_flat_row(struct_info@.rename_all, f),
            ));
        }
        i += 1;
    }
    proof {
        assert(mfields.take(mfields.len() as int) =~= mfields);
        assert(rows.deep_view() =~= spec_flat_cells(struct_info@));
    }
    render_markdown_table(rows)
}

/// The column headers of a grouped section (no Group column: the group is
/// implicit in the section heading).
pub open spec fn spec_grouped_header() -> Seq<Seq<char>> {
    seq!["Field Name"@, "Type"@, "Required"@, "Default"@, "Details"@]
}

/// One body row of a grouped section.
pub open spec fn spec_grouped_row(rename: Option<CaseStyle>, f: FieldModel) -> Seq<Seq<char>> {
    seq![
        spec_transformed(rename, f.name),
        f.field_type,
        spec_required_text(f.clap_attrs),
        spec_default_text(f.clap_attrs),
        spec_details_text(f),
    ]
}

/// The cell grid of one group's table.
pub open spec fn spec_group_cells(
    rename: Option<CaseStyle>,
    fs: Seq<FieldModel>,
) -> Seq<Seq<Seq<char>>> {
    seq![spec_grouped_header()] + fs.map_values(|f: FieldModel| spec_grouped_row(rename, f))
}

/// One headed section: heading, the group's table, and a trailing blank line.
pub open spec fn spec_section(rename: Option<CaseStyle>, g: Seq<char>, fs: Seq<FieldModel>) -> Seq<
    char,
> {
    "## "@ + g + " Configuration\n\n"@ + markdown_table_of(spec_group_cells(rename, fs))
        + "\n\n"@
}

/// The first `k` sections of the grouped rendering, concatenated.
pub open spec fn spec_sections_upto(s: StructModel, names: Seq<Seq<char>>, k: int) -> Seq<char>
    decreases k,
{
    if k <= 0 {
        Seq::empty()
    } else {
        spec_sections_upto(s, names, k - 1) + spec_section(
            s.rename_all,
            names[k - 1],
            spec_fields_of_group(s.fields, names[k - 1], s.fields.len() as int),
        )
    }
}

/// The grouped rendering of a definition: one section per group, in
/// first-seen group order, each holding that group's fields in order.
pub open spec fn spec_grouped_table(s: StructModel) -> Seq<char> {
    let names = spec_group_names(s.fields, s.fields.len() as int);
    spec_sections_upto(s, names, names.len() as int)
}

fn grouped_header() -> (r: Vec<String>)
    ensures
        r.deep_view() == spec_grouped_header(),
{
    let mut row: Vec<String> = Vec::new();
    row.push(String::from_str("Field Name"));
    row.push(String::from_str("Type"));
    row.push(String::from_str("Required"));
    row.push(String::from_str("Default"));
    row.push(String::from_str("Details"));
    proof {
        assert(row.deep_view() =~= spec_grouped_header());
    }
    row
}

fn grouped_row(field: &FieldInfo, rename_all: &Option<CaseStyle>) -> (r: Vec<String>)
    ensures
        r.deep_view() == spec_grouped_row(*rename_all, field@),
{
    let mut row: Vec<String> = Vec::new();
    row.push(apply_field_name_transformation(field.name.as_str(), rename_all));
    row.push(field.field_type.clone());
    row.push(required_text(&field.clap_attrs));
    row.push(default_text(&field.clap_attrs));
    row.push(details_text(field));
    proof {
        assert(row.deep_view() =~= spec_grouped_row(*rename_all, field@));
    }
    row
}

/// Renders the grouped format: fields partitioned by group in first-seen
/// group order, one headed markdown table per group.
pub fn generate_grouped_table(struct_info: &StructInfo) -> (r: String)
    ensures
        r@ == spec_grouped_table(struct_info@),
{
    let ghost mfields = struct_info@.fields;
    let ghost big_n = mfields.len() as int;
    let n_fields = struct_info.fields.len();
    proof {
        assert(big_n == n_fields as int);
    }

    // Partition the fields by group, keeping first-seen group order.
    let mut groups = group_map_new();
    let mut i: usize = 0;
    while i < struct_info.fields.len()
        invariant
            i <= mfields.len(),
            mfields == struct_info@.fields,
            struct_info.fields@.len() == mfields.len(),
            crate::groups::group_map_keys(groups) == spec_group_names(mfields, i as int),
            crate::groups::group_map_vals(groups).len() == spec_group_names(
                mfields,
                i as int,
            ).len(),
            forall|j: int|
                0 <= j < spec_group_names(mfields, i as int).len()
                    ==> #[trigger] crate::groups::group_map_vals(groups)[j] == spec_group_indices(
                    mfields,
                    spec_group_names(mfields, i as int)[j],
                    i as int,
                ),
        decreases mfields.len() - i,
    {
        let ghost keys0 = crate::groups::group_map_keys(groups);
        let ghost vals0 = crate::groups::group_map_vals(groups);
        let ghost g = mfields[i as int].group;
        group_map_push(&mut groups, &struct_info.fields[i].group, i);
        proof {
            lemma_group_names_distinct(mfields, i as int);
            if keys0.contains(g) {
                let j0 = spec_key_index(keys0, g);
                lemma_key_index(keys0, g);
                assert forall|j: int|
                    0 <= j < spec_group_names(mfields, i + 1).len()
                        implies #[trigger] crate::groups::group_map_vals(groups)[j]
                        == spec_group_indices(mfields, spec_group_names(mfields, i + 1)[j], i + 1) by {
                    if j == j0 {
                        assert(keys0[j] == g);
                    } else {
                        assert(keys0[j] != g);
                    }
                }
            } else {
                lemma_unseen_group_empty(mfields, g, i as int);
                assert forall|j: int|
                    0 <= j < spec_group_names(mfields, i + 1).len()
                        implies #[trigger] crate::groups::group_map_vals(groups)[j]
                        == spec_group_indices(mfields, spec_group_names(mfields, i + 1)[j], i + 1) by {
                    if j < keys0.len() {
                        assert(keys0[j] != g);
                        assert(spec_group_names(mfields, i + 1)[j] == keys0[j]);
                    } else {
                        assert(spec_group_names(mfields, i + 1)[j] == g);
                        assert(spec_group_indices(mfields, g, i as int)
                            == Seq::<usize>::empty());
                        assert(crate::groups::group_map_vals(groups)[j] =~= spec_group_indices(
                            mfields,
                            g,
                            i + 1,
                        ));
                    }
                }
            }
        }
        i += 1;
    }
    let ghost names = spec_group_names(mfields, big_n);
    proof {
        assert(crate::groups::group_map_keys(groups) == names);
    }

    // Render one headed section per group, in first-seen order.
    let n_groups = group_map_len(&groups);
    let mut result = String::new();
    let mut k: usize = 0;
    while k < n_groups
        invariant
            k <= n_groups,
            n_groups == names.len(),
            mfields == struct_info@.fields,
            struct_info.fields@.len() == mfields.len(),
            big_n == mfields.len() as int,
            big_n <= usize::MAX,
            names == spec_group_names(mfields, big_n),
            crate::groups::group_map_keys(groups) == names,
            crate::groups::group_map_vals(groups).len() == names.len(),
            forall|j: int|
                0 <= j < names.len() ==> #[trigger] crate::groups::group_map_vals(groups)[j]
                    == spec_group_indices(mfields, names[j], big_n),
            result@ =~= spec_sections_upto(struct_info@, names, k as int),
        decreases n_groups - k,
    {
        let ghost pre = result@;
        let (group_name, idxs) = group_map_get(&groups, k);
        let ghost g = names[k as int];
        let ghost fg = spec_fields_of_group(mfields, g, big_n);
        proof {
            lemma_group_indices_select(mfields, g, big_n);
        }
        result.append("## ");
        result.append(group_name.as_str());
        result.append(" Configuration\n\n");

        let mut rows: Vec<Vec<String>> = Vec::new();
        rows.push(grouped_header());
        let mut j: usize = 0;
        while j < idxs.len()
            invariant
                j <= idxs@.len(),
                mfields == struct_info@.fields,
                struct_info.fields@.len() == mfields.len(),
                big_n == mfields.len() as int,
                idxs@ == spec_group_indices(mfields, g, big_n),
                fg == spec_fields_of_group(mfields, g, big_n),
                idxs@.len() == fg.len(),
                forall|t: int|
                    0 <= t < idxs@.len() ==> 0 <= #[trigger] idxs@[t] < big_n && mfields[idxs@[t] as int]
                        == fg[t],
                rows.deep_view() =~= seq![spec_grouped_header()] + fg.take(j as int).map_values(
                    |f: FieldModel| spec_grouped_row(struct_info@.rename_all, f),
                ),
            decreases idxs@.len() - j,
        {
            let ghost rpre = rows.deep_view();
            let idx = idxs[j];
            let row = grouped_row(&struct_info.fields[idx], &struct_info.clap_rename_all);
            rows.push(row);
            proof {
                assert(struct_info.fields@[idx as int]@ == fg[j as int]);
                assert(rows.deep_view() =~= rpre.push(row.deep_view()));
                assert(fg.take(j + 1).drop_last() =~= fg.take(j as int));
                assert(rows.deep_view() =~= seq![spec_grouped_header()] + fg.take(
                    j + 1,
                ).map_values(|f: FieldModel| spec_grouped_row(struct_info@.rename_all, f)));
            }
            j += 1;
        }
        proof {
            assert(fg.take(fg.len() as int) =~= fg);
            assert(rows.deep_view() =~= spec_group_cells(struct_info@.rename_all, fg));
        }
        let table = render_markdown_table(rows);
        result.append(table.as_str());
        result.append("\n\n");
        proof {
            assert(result@ =~= pre + spec_section(struct_info@.rename_all, g, fg));
            assert(result@ =~= spec_sections_upto(struct_info@, names, k + 1));
        }
        k += 1;
    }
    result
}

/// Renders a definition in the requested format.
pub fn generate_markdown_table(struct_info: &StructInfo, format: OutputFormat) -> (r: String)
    ensures
        r@ == spec_rendered(struct_info@, format),
{
    match format {
        OutputFormat::Flat => generate_flat_table(struct_info),
        OutputFormat::Grouped => generate_grouped_table(struct_info),
    }
}

/// What a generation request's content is: the definition rendered in the
/// requested format.
pub open spec fn spec_rendered(s: StructModel, format: OutputFormat) -> Seq<char> {
    match format {
        OutputFormat::Flat => spec_flat_table(s),
        OutputFormat::Grouped => spec_grouped_table(s),
    }
}

/// The content a generation request produces: the definition expanded
/// against the given registry, rendered in the requested format.
pub open spec fn spec_generated_content(
    reg: Map<Seq<char>, StructModel>,
    s: StructModel,
    format: OutputFormat,
) -> Seq<char> {
    spec_rendered(
        StructModel {
            name: s.name,
            fields: crate::expand::spec_expand_fields(reg, s.rename_all, s.fields),
            rename_all: s.rename_all,
        },
        format,
    )
}

} // verus!
