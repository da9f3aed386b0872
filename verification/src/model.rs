//! The metadata model: one configuration record type, its ordered fields, the
//! declared behavioral attributes of each field, and the declared field-name
//! case convention.

use vstd::prelude::*;
use vstd::string::StrSliceExecFns;
use vstd::string::StringExecFns;

use crate::text::{find_sub, lemma_find_is_first, match_at, spec_find, str_chars, str_eq};

verus! {

/// The declared case convention for displayed field names.
#[derive(Debug, Clone, Copy, PartialEq, Eq, Structural)]
pub enum CaseStyle {
    Snake,
    Camel,
    Pascal,
    Kebab,
    ScreamingSnake,
    ScreamingKebab,
}

impl CaseStyle {
    /// Recognizes the spelled-out convention names used in declarations.
    pub fn parse(s: &str) -> (r: Option<CaseStyle>)
        ensures
            r == Self::spec_parse(s@),
    {
        if str_eq(s, "snake_case") {
            Some(CaseStyle::Snake)
        } else if str_eq(s, "camelCase") {
            Some(CaseStyle::Camel)
        } else if str_eq(s, "PascalCase") {
            Some(CaseStyle::Pascal)
        } else if str_eq(s, "kebab-case") {
            Some(CaseStyle::Kebab)
        } else if str_eq(s, "SCREAMING_SNAKE_CASE") {
            Some(CaseStyle::ScreamingSnake)
        } else if str_eq(s, "SCREAMING-KEBAB-CASE") {
            Some(CaseStyle::ScreamingKebab)
        } else {
            None
        }
    }

    pub open spec fn spec_parse(s: Seq<char>) -> Option<CaseStyle> {
        if s == "snake_case"@ {
            Some(CaseStyle::Snake)
        } else if s == "camelCase"@ {
            Some(CaseStyle::Camel)
        } else if s == "PascalCase"@ {
            Some(CaseStyle::Pascal)
        } else if s == "kebab-case"@ {
            Some(CaseStyle::Kebab)
        } else if s == "SCREAMING_SNAKE_CASE"@ {
            Some(CaseStyle::ScreamingSnake)
        } else if s == "SCREAMING-KEBAB-CASE"@ {
            Some(CaseStyle::ScreamingKebab)
        } else {
            None
        }
    }
}

/// Output layout for a rendered reference table.
#[derive(Debug, Clone, Copy, PartialEq, Eq, Structural)]
pub enum OutputFormat {
    Flat,
    Grouped,
}

/// Structural faults in a declared annotation value.
#[derive(Debug, Clone, Copy, PartialEq, Eq, Structural)]
pub enum AttrError {
    ExpectedStringLiteral,
    ExpectedSingleChar,
}

/// Mathematical model of [`ClapAttrs`].
pub ghost struct AttrsModel {
    pub default_value: Option<Seq<char>>,
    pub default_value_t: Option<Seq<char>>,
    pub rename: Option<Seq<char>>,
    pub long: Option<Seq<char>>,
    pub short: Option<char>,
    pub flatten: bool,
    pub required: bool,
    pub skip: bool,
    pub help: Option<Seq<char>>,
    pub about: Option<Seq<char>>,
    pub env: Option<Seq<char>>,
}

/// The declared behavioral attributes of one field.
#[derive(Debug)]
pub struct ClapAttrs {
    // Value attributes
    pub default_value: Option<String>,
    pub default_value_t: Option<String>,
    // Naming attributes
    pub rename: Option<String>,
    pub long: Option<String>,
    pub short: Option<char>,
    // Behavioral flags
    pub flatten: bool,
    pub required: bool,
    pub skip: bool,
    // Documentation attributes
    pub help: Option<String>,
    pub about: Option<String>,
    // Environment binding
    pub env: Option<String>,
}

pub open spec fn view_opt_string(o: Option<String>) -> Option<Seq<char>> {
    match o {
        Some(s) => Some(s@),
        None => None,
    }
}

impl View for ClapAttrs {
    type V = AttrsModel;

    open spec fn view(&self) -> AttrsModel {
        AttrsModel {
            default_value: view_opt_string(self.default_value),
            default_value_t: view_opt_string(self.default_value_t),
            rename: view_opt_string(self.rename),
            long: view_opt_string(self.long),
            short: self.short,
            flatten: self.flatten,
            required: self.required,
            skip: self.skip,
            help: view_opt_string(self.help),
            about: view_opt_string(self.about),
            env: view_opt_string(self.env),
        }
    }
}

impl ClapAttrs {
    /// All attributes absent, all flags unset: the state before any
    /// declared annotation is applied.
    pub fn new() -> (r: ClapAttrs)
        ensures
            r@ == Self::spec_default(),
    {
        ClapAttrs {
            default_value: None,
            default_value_t: None,
            rename: None,
            long: None,
            short: None,
            flatten: false,
            required: false,
            skip: false,
            help: None,
            about: None,
            env: None,
        }
    }

    pub open spec fn spec_default() -> AttrsModel {
        AttrsModel {
            default_value: None,
            default_value_t: None,
            rename: None,
            long: None,
            short: None,
            flatten: false,
            required: false,
            skip: false,
            help: None,
            about: None,
            env: None,
        }
    }

    pub open spec fn spec_apply_flag(a: AttrsModel, name: Seq<char>) -> AttrsModel {
        if name == "flatten"@ {
            AttrsModel { flatten: true, ..a }
        } else if name == "required"@ {
            AttrsModel { required: true, ..a }
        } else if name == "skip"@ {
            AttrsModel { skip: true, ..a }
        } else {
            a
        }
    }

    /// Applies a bare annotation flag such as `flatten`, `required` or `skip`;
    /// unrecognized flags are ignored.
    pub fn apply_flag(&mut self, name: &str)
        ensures
            final(self)@ == Self::spec_apply_flag(old(self)@, name@),
    {
        if str_eq(name, "flatten") {
            self.flatten = true;
        } else if str_eq(name, "required") {
            self.required = true;
        } else if str_eq(name, "skip") {
            self.skip = true;
        }
    }

    pub open spec fn spec_apply_name_value(
        a: AttrsModel,
        key: Seq<char>,
        str_value: Option<Seq<char>>,
        expr_text: Seq<char>,
    ) -> Result<AttrsModel, AttrError> {
        if key == "default_value_t"@ {
            Ok(AttrsModel { default_value_t: Some(expr_text), ..a })
        } else if key == "short"@ {
            match str_value {
                Some(s) => if s.len() == 1 {
                    Ok(AttrsModel { short: Some(s[0]), ..a })
                } else {
                    Err(AttrError::ExpectedSingleChar)
                },
                None => Err(AttrError::ExpectedStringLiteral),
            }
        } else if key == "long"@ || key == "env"@ || key == "default_value"@ || key == "help"@
            || key == "about"@ || key == "rename"@ {
            match str_value {
                Some(s) => {
                    if key == "long"@ {
                        Ok(AttrsModel { long: Some(s), ..a })
                    } else if key == "env"@ {
                        Ok(AttrsModel { env: Some(s), ..a })
                    } else if key == "default_value"@ {
                        Ok(AttrsModel { default_value: Some(s), ..a })
                    } else if key == "help"@ {
                        Ok(AttrsModel { help: Some(s), ..a })
                    } else if key == "about"@ {
                        Ok(AttrsModel { about: Some(s), ..a })
                    } else {
                        Ok(AttrsModel { rename: Some(s), ..a })
                    }
                },
                None => Err(AttrError::ExpectedStringLiteral),
            }
        } else {
            Ok(a)
        }
    }

    /// Applies one `key = value` annotation. `str_value` carries the value
    /// when it was written as a string literal; `expr_text` carries the raw
    /// expression text, which is what a declared default expression keeps.
    /// Unrecognized keys are ignored; a key that needs a string literal or a
    /// single character without one is a structural error.
    pub fn apply_name_value(
        &mut self,
        key: &str,
        str_value: Option<&String>,
        expr_text: &str,
    ) -> (r: Result<(), AttrError>)
        ensures
            match r {
                Ok(()) => {
                    &&& Self::spec_apply_name_value(
                        old(self)@,
                        key@,
                        view_opt_ref(str_value),
                        expr_text@,
                    ) is Ok
                    &&& final(self)@ == Self::spec_apply_name_value(
                        old(self)@,
                        key@,
                        view_opt_ref(str_value),
                        expr_text@,
                    )->Ok_0
                },
                Err(e) => {
                    &&& Self::spec_apply_name_value(
                        old(self)@,
                        key@,
                        view_opt_ref(str_value),
                        expr_text@,
                    ) == Result::<AttrsModel, AttrError>::Err(e)
                    &&& *final(self) == *old(self)
                },
            },
    {
        if str_eq(key, "default_value_t") {
            self.default_value_t = Some(expr_text.to_owned());
            Ok(())
        } else if str_eq(key, "short") {
            match str_value {
                Some(s) => {
                    if s.as_str().unicode_len() == 1 {
                        self.short = Some(s.as_str().get_char(0));
                        Ok(())
                    } else {
                        Err(AttrError::ExpectedSingleChar)
                    }
                },
                None => Err(AttrError::ExpectedStringLiteral),
            }
        } else if str_eq(key, "long") || str_eq(key, "env") || str_eq(key, "default_value")
            || str_eq(key, "help") || str_eq(key, "about") || str_eq(key, "rename") {
            match str_value {
                Some(s) => {
                    let v = s.clone();
                    if str_eq(key, "long") {
                        self.long = Some(v);
                    } else if str_eq(key, "env") {
                        self.env = Some(v);
                    } else if str_eq(key, "default_value") {
                        self.default_value = Some(v);
                    } else if str_eq(key, "help") {
                        self.help = Some(v);
                    } else if str_eq(key, "about") {
                        self.about = Some(v);
                    } else {
                        self.rename = Some(v);
                    }
                    Ok(())
                },
                None => Err(AttrError::ExpectedStringLiteral),
            }
        } else {
            Ok(())
        }
    }
}

pub open spec fn view_opt_ref(o: Option<&String>) -> Option<Seq<char>> {
    match o {
        Some(s) => Some(s@),
        None => None,
    }
}

fn clone_opt_string(o: &Option<String>) -> (r: Option<String>)
    ensures
        r == *o,
{
    match o {
        Some(s) => Some(s.clone()),
        None => None,
    }
}

impl Clone for ClapAttrs {
    fn clone(&self) -> (r: Self)
        ensures
            r == *self,
    {
        ClapAttrs {
            default_value: clone_opt_string(&self.default_value),
            default_value_t: clone_opt_string(&self.default_value_t),
            rename: clone_opt_string(&self.rename),
            long: clone_opt_string(&self.long),
            short: self.short,
            flatten: self.flatten,
            required: self.required,
            skip: self.skip,
            help: clone_opt_string(&self.help),
            about: clone_opt_string(&self.about),
            env: clone_opt_string(&self.env),
        }
    }
}

/// Mathematical model of [`FieldInfo`].
pub ghost struct FieldModel {
    pub name: Seq<char>,
    pub field_type: Seq<char>,
    pub doc_comment: Option<Seq<char>>,
    pub clap_attrs: AttrsModel,
    pub group: Seq<char>,
}

/// One field of a record definition.
#[derive(Debug)]
pub struct FieldInfo {
    pub name: String,
    pub field_type: String,
    pub doc_comment: Option<String>,
    pub clap_attrs: ClapAttrs,
    pub group: String,
}

impl View for FieldInfo {
    type V = FieldModel;

    open spec fn view(&self) -> FieldModel {
        FieldModel {
            name: self.name@,
            field_type: self.field_type@,
            doc_comment: view_opt_string(self.doc_comment),
            clap_attrs: self.clap_attrs@,
            group: self.group@,
        }
    }
}

/// Start of the last `::`-separated segment of a type path, or 0 when the
/// path has a single segment.
pub open spec fn spec_last_segment_start(s: Seq<char>) -> int {
    spec_last_sep_before(s, s.len() - 1)
}

/// Start of the last segment whose separator ends at or before `upto + 1`.
pub open spec fn spec_last_sep_before(s: Seq<char>, upto: int) -> int
    decreases upto + 1 when -1 <= upto < s.len()
{
    if upto < 0 {
        0
    } else if match_at(s, "::"@, upto - 1) {
        upto + 1
    } else {
        spec_last_sep_before(s, upto - 1)
    }
}

/// The last `::`-separated segment of a type path: the name under which a
/// flattened field's referenced record is grouped.
pub open spec fn spec_last_segment(s: Seq<char>) -> Seq<char> {
    s.skip(spec_last_segment_start(s))
}

/// Extracts the last `::`-separated segment of a type path.
pub fn last_path_segment(s: &str) -> (r: String)
    ensures
        r@ == spec_last_segment(s@),
{
    let chars = crate::text::str_chars(s);
    let len = chars.len();
    let mut upto: usize = len;
    // `upto` walks down; the result is `upto` once a separator ending at
    // `upto - 1` is found, or 0 when none is.
    loop
        invariant
            upto <= len,
            len == s@.len(),
            chars@ == s@,
            spec_last_sep_before(s@, len - 1) == spec_last_sep_before(s@, upto - 1),
        decreases upto,
    {
        proof {
            reveal_strlit("::");
            assert("::"@.len() == 2);
        }
        if upto >= 2 {
            if chars[upto - 2] == ':' && chars[upto - 1] == ':' {
                proof {
                    assert(s@.subrange(upto - 2, upto as int) =~= "::"@) by {
                        assert(s@.subrange(upto - 2, upto as int)[0] == ':');
                        assert(s@.subrange(upto - 2, upto as int)[1] == ':');
                        assert("::"@[0] == ':' && "::"@[1] == ':');
                    }
                    assert(match_at(s@, "::"@, upto - 2));
                }
                let r = s.substring_char(upto, len);
                proof {
                    assert(spec_last_sep_before(s@, upto - 1) == upto as int);
                    assert(s@.subrange(upto as int, len as int) =~= s@.skip(upto as int));
                }
                return r.to_owned();
            }
            proof {
                if match_at(s@, "::"@, upto - 2) {
                    assert(s@.subrange(upto - 2, upto as int)[0] == ':');
                    assert(s@.subrange(upto - 2, upto as int)[1] == ':');
                    assert(false);
                }
                assert(spec_last_sep_before(s@, upto - 1) == spec_last_sep_before(
                    s@,
                    upto - 2,
                ));
            }
            upto -= 1;
        } else {
            proof {
                if upto == 1 {
                    if match_at(s@, "::"@, 0 - 1) {
                        assert(false);
                    }
                    assert(spec_last_sep_before(s@, 0) == spec_last_sep_before(s@, -1));
                }
                assert(spec_last_sep_before(s@, len - 1) == 0);
                assert(s@.subrange(0, len as int) =~= s@.skip(0));
            }
            let r = s.substring_char(0, len);
            return r.to_owned();
        }
    }
}

/// The group a declared field belongs to before any expansion: the referenced
/// record's name for a flattened field, else the declaring record's own name.
pub open spec fn spec_initial_group(
    parent: Seq<char>,
    field_type: Seq<char>,
    flatten: bool,
) -> Seq<char> {
    if flatten {
        if spec_last_segment(field_type).len() == 0 {
            "Unknown"@
        } else {
            spec_last_segment(field_type)
        }
    } else {
        parent
    }
}

impl FieldInfo {
    /// Builds one field record, assigning its group from the declaring
    /// record's name, or from the referenced type's name when flattened.
    pub fn new(
        name: String,
        field_type: String,
        doc_comment: Option<String>,
        clap_attrs: ClapAttrs,
        parent_struct: &str,
    ) -> (r: FieldInfo)
        ensures
            r@ == (FieldModel {
                name: name@,
                field_type: field_type@,
                doc_comment: view_opt_string(doc_comment),
                clap_attrs: clap_attrs@,
                group: spec_initial_group(parent_struct@, field_type@, clap_attrs.flatten),
            }),
    {
        let group = if clap_attrs.flatten {
            let seg = last_path_segment(field_type.as_str());
            if seg.as_str().is_empty() {
                proof {
                    reveal_strlit("Unknown");
                }
                String::from_str("Unknown")
            } else {
                seg
            }
        } else {
            parent_struct.to_owned()
        };
        FieldInfo { name, field_type, doc_comment, clap_attrs, group }
    }
}

impl Clone for FieldInfo {
    fn clone(&self) -> (r: Self)
        ensures
            r == *self,
    {
        FieldInfo {
            name: self.name.clone(),
            field_type: self.field_type.clone(),
            doc_comment: clone_opt_string(&self.doc_comment),
            clap_attrs: self.clap_attrs.clone(),
            group: self.group.clone(),
        }
    }
}

/// Mathematical model of [`StructInfo`].
pub ghost struct StructModel {
    pub name: Seq<char>,
    pub fields: Seq<FieldModel>,
    pub rename_all: Option<CaseStyle>,
}

/// One record definition: its name, its ordered fields, and the declared
/// case convention for displayed field names.
#[derive(Debug)]
pub struct StructInfo {
    pub name: String,
    pub fields: Vec<FieldInfo>,
    pub clap_rename_all: Option<CaseStyle>,
}

impl View for StructInfo {
    type V = StructModel;

    open spec fn view(&self) -> StructModel {
        StructModel {
            name: self.name@,
            fields: self.fields@.map_values(|f: FieldInfo| f@),
            rename_all: self.clap_rename_all,
        }
    }
}

impl Clone for StructInfo {
    fn clone(&self) -> (r: Self)
        ensures
            r.name == self.name,
            r.fields@ == self.fields@,
            r.clap_rename_all == self.clap_rename_all,
            r@ == self@,
    {
        let mut fields: Vec<FieldInfo> = Vec::new();
        let mut i: usize = 0;
        while i < self.fields.len()
            invariant
                i <= self.fields.len(),
                fields@ =~= self.fields@.take(i as int),
            decreases self.fields.len() - i,
        {
            fields.push(self.fields[i].clone());
            assert(fields@ =~= self.fields@.take(i + 1));
            i += 1;
        }
        proof {
            assert(fields@ =~= self.fields@);
        }
        StructInfo { name: self.name.clone(), fields, clap_rename_all: self.clap_rename_all }
    }
}

/// Mathematical model of [`ConfigDocsArgs`].
pub ghost struct ArgsModel {
    pub target: Seq<char>,
    pub format: OutputFormat,
}

/// Output configuration of one generation request: the target document and
/// the requested table format.
#[derive(Debug)]
pub struct ConfigDocsArgs {
    pub target: String,
    pub format: OutputFormat,
}

impl View for ConfigDocsArgs {
    type V = ArgsModel;

    open spec fn view(&self) -> ArgsModel {
        ArgsModel { target: self.target@, format: self.format }
    }
}

impl Clone for ConfigDocsArgs {
    fn clone(&self) -> (r: Self)
        ensures
            r == *self,
    {
        ConfigDocsArgs { target: self.target.clone(), format: self.format }
    }
}

/// The token text that introduces a declared case convention.
pub open spec fn spec_rename_all_pattern() -> Seq<char> {
    "rename_all = \""@
}

/// What scanning one annotation's token text for a `rename_all` assignment
/// yields: `None` when no such assignment is written there; otherwise the
/// convention to take over, which is itself `None` for an unrecognized
/// spelling.
pub open spec fn spec_parse_rename_all(s: Seq<char>) -> Option<Option<CaseStyle>> {
    match spec_find(s, spec_rename_all_pattern()) {
        None => None,
        Some(p) => {
            let rest = s.skip(p + spec_rename_all_pattern().len());
            match spec_find(rest, "\""@) {
                None => None,
                Some(q) => Some(CaseStyle::spec_parse(rest.take(q))),
            }
        },
    }
}

/// Scans an annotation's token text for `rename_all = "..."` and parses the
/// quoted convention name.
pub fn parse_rename_all(tokens: &str) -> (r: Option<Option<CaseStyle>>)
    ensures
        r == spec_parse_rename_all(tokens@),
{
    let chars = str_chars(tokens);
    let pat = str_chars("rename_all = \"");
    let pat_len = pat.len();
    let len = chars.len();
    match find_sub(&chars, &pat) {
        None => None,
        Some(p) => {
            proof {
                lemma_find_is_first(tokens@, spec_rename_all_pattern());
                assert(p + pat_len <= len);
            }
            let rest = tokens.substring_char(p + pat_len, len);
            proof {
                assert(rest@ =~= tokens@.skip(p + pat_len));
            }
            let rest_chars = str_chars(rest);
            let quote = str_chars("\"");
            match find_sub(&rest_chars, &quote) {
                None => None,
                Some(q) => {
                    proof {
                        lemma_find_is_first(rest@, "\""@);
                        assert(q <= rest@.len());
                    }
                    let value = rest.substring_char(0, q);
                    proof {
                        assert(value@ =~= rest@.take(q as int));
                    }
                    Some(CaseStyle::parse(value))
                },
            }
        },
    }
}

} // verus!
