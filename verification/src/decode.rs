//! Decoding: from a structured-text value to the typed notebook document.
//!
//! The spec functions in this file are the decode contract, field by field.
//! Each executable decoder returns exactly what the corresponding spec
//! function says, for every input. Decoded string fields borrow from the
//! input value; no string data is copied except the owned `source` of a
//! cell and the owned author names.
use vstd::prelude::*;

use crate::model::{
    Author, CellModel, CellType, DecodeError, ErrorModel, FieldId, InterruptMode,
    KernelSpecModel, KernelSpecification, LanguageInfo, Metadata, MetadataModel, Notebook,
    NotebookCell, NotebookMetadata, NotebookMetadataModel, NotebookModel, cell_type_of_token,
    env_model, strs_model,
};
use crate::value::{
    JsonModel, JsonValue, Shape, lemma_obj_model_index, lemma_obj_model_len,
    lemma_obj_model_snoc, lemma_seq_model_index, lemma_seq_model_len, lemma_seq_model_snoc,
    obj_get, obj_lookup, obj_model, seq_model, shape_of, str_eq,
};

verus! {

/// The members of an object value.
pub type Members = Seq<(Seq<char>, JsonModel)>;

// ---------------------------------------------------------------------------
// The decode contract, field by field.
// ---------------------------------------------------------------------------

/// A required string member: absent is a missing-field failure, any
/// non-string shape a mismatch.
pub open spec fn req_str_field(o: Members, key: Seq<char>, f: FieldId) -> Result<
    Seq<char>,
    ErrorModel,
> {
    match obj_lookup(o, key) {
        None => Err(ErrorModel::MissingField { field: f }),
        Some(m) => match m {
            JsonModel::Str(s) => Ok(s),
            _ => Err(
                ErrorModel::TypeMismatch { field: f, expected: Shape::Str, actual: shape_of(m) },
            ),
        },
    }
}

/// A required boolean member.
pub open spec fn req_bool_field(o: Members, key: Seq<char>, f: FieldId) -> Result<
    bool,
    ErrorModel,
> {
    match obj_lookup(o, key) {
        None => Err(ErrorModel::MissingField { field: f }),
        Some(m) => match m {
            JsonModel::Bool(b) => Ok(b),
            _ => Err(
                ErrorModel::TypeMismatch { field: f, expected: Shape::Bool, actual: shape_of(m) },
            ),
        },
    }
}

/// A required unsigned 16-bit member: an integer outside [0, 65535] is a
/// numeric-range failure, a non-integer shape a mismatch.
pub open spec fn req_u16_field(o: Members, key: Seq<char>, f: FieldId) -> Result<
    u16,
    ErrorModel,
> {
    match obj_lookup(o, key) {
        None => Err(ErrorModel::MissingField { field: f }),
        Some(m) => match m {
            JsonModel::Int(i) => if 0 <= i <= 65535 {
                Ok(i as u16)
            } else {
                Err(ErrorModel::NumericRange { field: f, value: i })
            },
            _ => Err(
                ErrorModel::TypeMismatch { field: f, expected: Shape::Int, actual: shape_of(m) },
            ),
        },
    }
}

/// The items of an array of strings; the leftmost non-string item fails.
pub open spec fn decode_strings(items: Seq<JsonModel>, f: FieldId) -> Result<
    Seq<Seq<char>>,
    ErrorModel,
>
    decreases items.len(),
{
    if items.len() == 0 {
        Ok(Seq::empty())
    } else {
        match decode_strings(items.drop_last(), f) {
            Err(e) => Err(e),
            Ok(t) => match items.last() {
                JsonModel::Str(s) => Ok(t.push(s)),
                m => Err(
                    ErrorModel::TypeMismatch {
                        field: f,
                        expected: Shape::Str,
                        actual: shape_of(m),
                    },
                ),
            },
        }
    }
}

/// An optional array-of-strings member: absent or null resolves to no
/// value; any other shape than an array is a mismatch.
pub open spec fn opt_strings_field(o: Members, key: Seq<char>, f: FieldId) -> Result<
    Option<Seq<Seq<char>>>,
    ErrorModel,
> {
    match obj_lookup(o, key) {
        None => Ok(None),
        Some(m) => match m {
            JsonModel::Null => Ok(None),
            JsonModel::Arr(items) => match decode_strings(items, f) {
                Ok(t) => Ok(Some(t)),
                Err(e) => Err(e),
            },
            _ => Err(
                ErrorModel::TypeMismatch { field: f, expected: Shape::Arr, actual: shape_of(m) },
            ),
        },
    }
}

/// The members of the `env` object, in input order; the leftmost
/// non-string value fails.
pub open spec fn decode_env_members(o: Members) -> Result<
    Seq<(Seq<char>, Seq<char>)>,
    ErrorModel,
>
    decreases o.len(),
{
    if o.len() == 0 {
        Ok(Seq::empty())
    } else {
        match decode_env_members(o.drop_last()) {
            Err(e) => Err(e),
            Ok(t) => match o.last().1 {
                JsonModel::Str(s) => Ok(t.push((o.last().0, s))),
                m => Err(
                    ErrorModel::TypeMismatch {
                        field: FieldId::Env,
                        expected: Shape::Str,
                        actual: shape_of(m),
                    },
                ),
            },
        }
    }
}

/// The optional `env` member: a string-to-string object.
pub open spec fn opt_env_field(o: Members) -> Result<
    Option<Seq<(Seq<char>, Seq<char>)>>,
    ErrorModel,
> {
    match obj_lookup(o, "env"@) {
        None => Ok(None),
        Some(m) => match m {
            JsonModel::Null => Ok(None),
            JsonModel::Obj(members) => match decode_env_members(members) {
                Ok(t) => Ok(Some(t)),
                Err(e) => Err(e),
            },
            _ => Err(
                ErrorModel::TypeMismatch {
                    field: FieldId::Env,
                    expected: Shape::Obj,
                    actual: shape_of(m),
                },
            ),
        },
    }
}

/// The optional `interrupt_mode` member: the token `"signal"` or
/// `"message"`. An unrecognized token is a mismatch whose expected and
/// actual shapes are both strings.
pub open spec fn opt_interrupt_field(o: Members) -> Result<Option<InterruptMode>, ErrorModel> {
    match obj_lookup(o, "interrupt_mode"@) {
        None => Ok(None),
        Some(m) => match m {
            JsonModel::Null => Ok(None),
            JsonModel::Str(s) => if s == "signal"@ {
                Ok(Some(InterruptMode::Signal))
            } else if s == "message"@ {
                Ok(Some(InterruptMode::Message))
            } else {
                Err(
                    ErrorModel::TypeMismatch {
                        field: FieldId::InterruptMode,
                        expected: Shape::Str,
                        actual: Shape::Str,
                    },
                )
            },
            _ => Err(
                ErrorModel::TypeMismatch {
                    field: FieldId::InterruptMode,
                    expected: Shape::Str,
                    actual: shape_of(m),
                },
            ),
        },
    }
}

/// A kernel specification: `argv`, `display_name`, `language`, `env` and
/// `interrupt_mode`, checked in that order.
pub open spec fn decode_kernel_spec_model(m: JsonModel) -> Result<KernelSpecModel, ErrorModel> {
    match m {
        JsonModel::Obj(o) => match opt_strings_field(o, "argv"@, FieldId::Argv) {
            Err(e) => Err(e),
            Ok(argv) => match req_str_field(o, "display_name"@, FieldId::DisplayName) {
                Err(e) => Err(e),
                Ok(display_name) => match req_str_field(o, "language"@, FieldId::Language) {
                    Err(e) => Err(e),
                    Ok(language) => match opt_env_field(o) {
                        Err(e) => Err(e),
                        Ok(env) => match opt_interrupt_field(o) {
                            Err(e) => Err(e),
                            Ok(interrupt_mode) => Ok(
                                KernelSpecModel {
                                    argv,
                                    display_name,
                                    language,
                                    env,
                                    interrupt_mode,
                                },
                            ),
                        },
                    },
                },
            },
        },
        _ => Err(
            ErrorModel::TypeMismatch {
                field: FieldId::Kernelspec,
                expected: Shape::Obj,
                actual: shape_of(m),
            },
        ),
    }
}

/// The items of the `authors` array: objects each holding a string `name`.
pub open spec fn decode_authors_items(items: Seq<JsonModel>) -> Result<Seq<Seq<char>>, ErrorModel>
    decreases items.len(),
{
    if items.len() == 0 {
        Ok(Seq::empty())
    } else {
        match decode_authors_items(items.drop_last()) {
            Err(e) => Err(e),
            Ok(t) => match items.last() {
                JsonModel::Obj(o) => match req_str_field(o, "name"@, FieldId::AuthorName) {
                    Ok(n) => Ok(t.push(n)),
                    Err(e) => Err(e),
                },
                m => Err(
                    ErrorModel::TypeMismatch {
                        field: FieldId::Authors,
                        expected: Shape::Obj,
                        actual: shape_of(m),
                    },
                ),
            },
        }
    }
}

/// Document metadata: a required `kernelspec`, an optional `authors` array
/// defaulting to the empty sequence, and `language_info` ignored entirely —
/// the decoded `language_info` is always no-value, whatever the input holds.
pub open spec fn decode_notebook_metadata_model(m: JsonModel) -> Result<
    NotebookMetadataModel,
    ErrorModel,
> {
    match m {
        JsonModel::Obj(o) => match obj_lookup(o, "kernelspec"@) {
            None => Err(ErrorModel::MissingField { field: FieldId::Kernelspec }),
            Some(km) => match decode_kernel_spec_model(km) {
                Err(e) => Err(e),
                Ok(kernel_spec) => match obj_lookup(o, "authors"@) {
                    None => Ok(
                        NotebookMetadataModel { kernel_spec, language_info: None, authors: Seq::empty() },
                    ),
                    Some(am) => match am {
                        JsonModel::Arr(items) => match decode_authors_items(items) {
                            Ok(authors) => Ok(
                                NotebookMetadataModel { kernel_spec, language_info: None, authors },
                            ),
                            Err(e) => Err(e),
                        },
                        _ => Err(
                            ErrorModel::TypeMismatch {
                                field: FieldId::Authors,
                                expected: Shape::Arr,
                                actual: shape_of(am),
                            },
                        ),
                    },
                },
            },
        },
        _ => Err(
            ErrorModel::TypeMismatch {
                field: FieldId::Metadata,
                expected: Shape::Obj,
                actual: shape_of(m),
            },
        ),
    }
}

/// Cell metadata: all seven members are required; `name`, `tags` and
/// `format` are checked first, then the four flags in declaration order.
pub open spec fn decode_metadata_model(m: JsonModel) -> Result<MetadataModel, ErrorModel> {
    match m {
        JsonModel::Obj(o) => match req_str_field(o, "name"@, FieldId::Name) {
            Err(e) => Err(e),
            Ok(name) => match obj_lookup(o, "tags"@) {
                None => Err(ErrorModel::MissingField { field: FieldId::Tags }),
                Some(tm) => match tm {
                    JsonModel::Arr(items) => match decode_strings(items, FieldId::Tags) {
                        Err(e) => Err(e),
                        Ok(tags) => match req_str_field(o, "format"@, FieldId::Format) {
                            Err(e) => Err(e),
                            Ok(format) => match req_bool_field(o, "collapsed"@, FieldId::Collapsed) {
                                Err(e) => Err(e),
                                Ok(collapsed) => match req_bool_field(
                                    o,
                                    "scrolled"@,
                                    FieldId::Scrolled,
                                ) {
                                    Err(e) => Err(e),
                                    Ok(scrolled) => match req_bool_field(
                                        o,
                                        "deletable"@,
                                        FieldId::Deletable,
                                    ) {
                                        Err(e) => Err(e),
                                        Ok(deletable) => match req_bool_field(
                                            o,
                                            "editable"@,
                                            FieldId::Editable,
                                        ) {
                                            Err(e) => Err(e),
                                            Ok(editable) => Ok(
                                                MetadataModel {
                                                    name,
                                                    tags,
                                                    format,
                                                    collapsed,
                                                    scrolled,
                                                    deletable,
                                                    editable,
                                                },
                                            ),
                                        },
                                    },
                                },
                            },
                        },
                    },
                    _ => Err(
                        ErrorModel::TypeMismatch {
                            field: FieldId::Tags,
                            expected: Shape::Arr,
                            actual: shape_of(tm),
                        },
                    ),
                },
            },
        },
        _ => Err(
            ErrorModel::TypeMismatch {
                field: FieldId::Metadata,
                expected: Shape::Obj,
                actual: shape_of(m),
            },
        ),
    }
}

/// One cell: required `metadata`, `source` and `cell_type`, checked in
/// that order. A present non-string `cell_type` is a shape mismatch; a
/// string other than the two tokens is a parse failure naming the token.
pub open spec fn decode_cell_model(m: JsonModel) -> Result<CellModel, ErrorModel> {
    match m {
        JsonModel::Obj(o) => match obj_lookup(o, "metadata"@) {
            None => Err(ErrorModel::MissingField { field: FieldId::Metadata }),
            Some(mm) => match decode_metadata_model(mm) {
                Err(e) => Err(e),
                Ok(metadata) => match req_str_field(o, "source"@, FieldId::Source) {
                    Err(e) => Err(e),
                    Ok(source) => match obj_lookup(o, "cell_type"@) {
                        None => Err(ErrorModel::MissingField { field: FieldId::CellType }),
                        Some(cm) => match cm {
                            JsonModel::Str(s) => match cell_type_of_token(s) {
                                Ok(cell_type) => Ok(CellModel { metadata, source, cell_type }),
                                Err(e) => Err(e),
                            },
                            _ => Err(
                                ErrorModel::TypeMismatch {
                                    field: FieldId::CellType,
                                    expected: Shape::Str,
                                    actual: shape_of(cm),
                                },
                            ),
                        },
                    },
                },
            },
        },
        _ => Err(
            ErrorModel::TypeMismatch {
                field: FieldId::Cells,
                expected: Shape::Obj,
                actual: shape_of(m),
            },
        ),
    }
}

/// The cells, in document order; the leftmost failing cell fails the whole
/// decode.
pub open spec fn decode_cells_models(items: Seq<JsonModel>) -> Result<Seq<CellModel>, ErrorModel>
    decreases items.len(),
{
    if items.len() == 0 {
        Ok(Seq::empty())
    } else {
        match decode_cells_models(items.drop_last()) {
            Err(e) => Err(e),
            Ok(t) => match decode_cell_model(items.last()) {
                Ok(c) => Ok(t.push(c)),
                Err(e) => Err(e),
            },
        }
    }
}

/// A whole notebook document: a top-level object with `metadata`, `cells`,
/// `nbformat` and `nbformat_minor`, checked in that order. This spec
/// function is the entire decode contract: `decode_notebook` returns
/// exactly this, for every input.
pub open spec fn decode_notebook_model(m: JsonModel) -> Result<NotebookModel, ErrorModel> {
    match m {
        JsonModel::Obj(o) => match obj_lookup(o, "metadata"@) {
            None => Err(ErrorModel::MissingField { field: FieldId::Metadata }),
            Some(mm) => match decode_notebook_metadata_model(mm) {
                Err(e) => Err(e),
                Ok(metadata) => match obj_lookup(o, "cells"@) {
                    None => Err(ErrorModel::MissingField { field: FieldId::Cells }),
                    Some(cm) => match cm {
                        JsonModel::Arr(items) => match decode_cells_models(items) {
                            Err(e) => Err(e),
                            Ok(cells) => match req_u16_field(o, "nbformat"@, FieldId::Nbformat) {
                                Err(e) => Err(e),
                                Ok(nbformat) => match req_u16_field(
                                    o,
                                    "nbformat_minor"@,
                                    FieldId::NbformatMinor,
                                ) {
                                    Err(e) => Err(e),
                                    Ok(nbformat_minor) => Ok(
                                        NotebookModel { metadata, cells, nbformat, nbformat_minor },
                                    ),
                                },
                            },
                        },
                        _ => Err(
                            ErrorModel::TypeMismatch {
                                field: FieldId::Cells,
                                expected: Shape::Arr,
                                actual: shape_of(cm),
                            },
                        ),
                    },
                },
            },
        },
        _ => Err(
            ErrorModel::TypeMismatch {
                field: FieldId::Root,
                expected: Shape::Obj,
                actual: shape_of(m),
            },
        ),
    }
}

// ---------------------------------------------------------------------------
// Executable decoders. Each returns exactly what its spec function says.
// ---------------------------------------------------------------------------

/// The shape of a value, as named by mismatch errors.
pub fn shape(v: &JsonValue) -> (s: Shape)
    ensures
        s == shape_of(v@),
{
    match v {
        JsonValue::Null => Shape::Null,
        JsonValue::Bool(_) => Shape::Bool,
        JsonValue::Int(_) => Shape::Int,
        JsonValue::Str(_) => Shape::Str,
        JsonValue::Arr(_) => Shape::Arr,
        JsonValue::Obj(_) => Shape::Obj,
    }
}

fn get_req_str<'a>(pairs: &'a Vec<(String, JsonValue)>, key: &str, f: FieldId) -> (r: Result<
    &'a str,
    DecodeError,
>)
    ensures
        match r {
            Ok(s) => req_str_field(obj_model(pairs@), key@, f) == Ok::<Seq<char>, ErrorModel>(s@),
            Err(e) => req_str_field(obj_model(pairs@), key@, f) == Err::<Seq<char>, ErrorModel>(
                e@,
            ),
        },
{
    match obj_get(pairs, key) {
        None => Err(DecodeError::MissingField { field: f }),
        Some(w) => match w {
            JsonValue::Str(s) => Ok(s.as_str()),
            _ => Err(
                DecodeError::TypeMismatch { field: f, expected: Shape::Str, actual: shape(w) },
            ),
        },
    }
}

fn get_req_bool(pairs: &Vec<(String, JsonValue)>, key: &str, f: FieldId) -> (r: Result<
    bool,
    DecodeError,
>)
    ensures
        match r {
            Ok(b) => req_bool_field(obj_model(pairs@), key@, f) == Ok::<bool, ErrorModel>(b),
            Err(e) => req_bool_field(obj_model(pairs@), key@, f) == Err::<bool, ErrorModel>(e@),
        },
{
    match obj_get(pairs, key) {
        None => Err(DecodeError::MissingField { field: f }),
        Some(w) => match w {
            JsonValue::Bool(b) => Ok(*b),
            _ => Err(
                DecodeError::TypeMismatch { field: f, expected: Shape::Bool, actual: shape(w) },
            ),
        },
    }
}

fn get_req_u16(pairs: &Vec<(String, JsonValue)>, key: &str, f: FieldId) -> (r: Result<
    u16,
    DecodeError,
>)
    ensures
        match r {
            Ok(n) => req_u16_field(obj_model(pairs@), key@, f) == Ok::<u16, ErrorModel>(n),
            Err(e) => req_u16_field(obj_model(pairs@), key@, f) == Err::<u16, ErrorModel>(e@),
        },
{
    match obj_get(pairs, key) {
        None => Err(DecodeError::MissingField { field: f }),
        Some(w) => match w {
            JsonValue::Int(i) => if 0 <= *i && *i <= 65535 {
                Ok(*i as u16)
            } else {
                Err(DecodeError::NumericRange { field: f, value: *i })
            },
            _ => Err(
                DecodeError::TypeMismatch { field: f, expected: Shape::Int, actual: shape(w) },
            ),
        },
    }
}

proof fn lemma_decode_strings_prefix_err(items: Seq<JsonModel>, i: int, f: FieldId)
    requires
        0 <= i <= items.len(),
        decode_strings(items.subrange(0, i), f) is Err,
    ensures
        decode_strings(items, f) == decode_strings(items.subrange(0, i), f),
    decreases items.len(),
{
    if i < items.len() {
        assert(items.drop_last().subrange(0, i) =~= items.subrange(0, i));
        lemma_decode_strings_prefix_err(items.drop_last(), i, f);
    } else {
        assert(items.subrange(0, i) =~= items);
    }
}

/// Decodes an array of strings, borrowing each item from the input.
fn decode_str_items<'a>(items: &'a Vec<JsonValue>, f: FieldId) -> (r: Result<
    Vec<&'a str>,
    DecodeError,
>)
    ensures
        match r {
            Ok(v) => decode_strings(seq_model(items@), f) == Ok::<Seq<Seq<char>>, ErrorModel>(
                strs_model(v@),
            ),
            Err(e) => decode_strings(seq_model(items@), f) == Err::<Seq<Seq<char>>, ErrorModel>(
                e@,
            ),
        },
{
    let mut acc: Vec<&'a str> = Vec::new();
    let mut i: usize = 0;
    proof {
        assert(items@.subrange(0, 0) =~= Seq::<JsonValue>::empty());
        assert(strs_model(acc@) =~= Seq::<Seq<char>>::empty());
    }
    while i < items.len()
        invariant
            0 <= i <= items.len(),
            acc@.len() == i,
            decode_strings(seq_model(items@.subrange(0, i as int)), f) == Ok::<
                Seq<Seq<char>>,
                ErrorModel,
            >(strs_model(acc@)),
        decreases items.len() - i,
    {
        proof {
            lemma_seq_model_snoc(items@, i as int);
            lemma_seq_model_len(items@.subrange(0, i as int));
            lemma_seq_model_len(items@.subrange(0, i + 1));
            assert(seq_model(items@.subrange(0, i + 1)).drop_last() =~= seq_model(
                items@.subrange(0, i as int),
            ));
        }
        match &items[i] {
            JsonValue::Str(s) => {
                let ghost old_acc = acc@;
                acc.push(s.as_str());
                proof {
                    assert(strs_model(acc@) =~= strs_model(old_acc).push(s@));
                }
            },
            w => {
                let e = DecodeError::TypeMismatch {
                    field: f,
                    expected: Shape::Str,
                    actual: shape(w),
                };
                proof {
                    lemma_seq_model_len(items@);
                    crate::value::lemma_seq_model_subrange(items@, i + 1);
                    lemma_decode_strings_prefix_err(seq_model(items@), i + 1, f);
                }
                return Err(e);
            },
        }
        i = i + 1;
    }
    proof {
        assert(items@.subrange(0, i as int) =~= items@);
    }
    Ok(acc)
}

proof fn lemma_decode_env_prefix_err(o: Members, i: int)
    requires
        0 <= i <= o.len(),
        decode_env_members(o.subrange(0, i)) is Err,
    ensures
        decode_env_members(o) == decode_env_members(o.subrange(0, i)),
    decreases o.len(),
{
    if i < o.len() {
        assert(o.drop_last().subrange(0, i) =~= o.subrange(0, i));
        lemma_decode_env_prefix_err(o.drop_last(), i);
    } else {
        assert(o.subrange(0, i) =~= o);
    }
}

/// Decodes the members of an `env` object, borrowing keys and values.
fn decode_env_items<'a>(pairs: &'a Vec<(String, JsonValue)>) -> (r: Result<
    Vec<(&'a str, &'a str)>,
    DecodeError,
>)
    ensures
        match r {
            Ok(v) => decode_env_members(obj_model(pairs@)) == Ok::<
                Seq<(Seq<char>, Seq<char>)>,
                ErrorModel,
            >(env_model(v@)),
            Err(e) => decode_env_members(obj_model(pairs@)) == Err::<
                Seq<(Seq<char>, Seq<char>)>,
                ErrorModel,
            >(e@),
        },
{
    let mut acc: Vec<(&'a str, &'a str)> = Vec::new();
    let mut i: usize = 0;
    proof {
        assert(pairs@.subrange(0, 0) =~= Seq::<(String, JsonValue)>::empty());
        assert(env_model(acc@) =~= Seq::<(Seq<char>, Seq<char>)>::empty());
    }
    while i < pairs.len()
        invariant
            0 <= i <= pairs.len(),
            acc@.len() == i,
            decode_env_members(obj_model(pairs@.subrange(0, i as int))) == Ok::<
                Seq<(Seq<char>, Seq<char>)>,
                ErrorModel,
            >(env_model(acc@)),
        decreases pairs.len() - i,
    {
        proof {
            lemma_obj_model_snoc(pairs@, i as int);
            lemma_obj_model_len(pairs@.subrange(0, i as int));
            lemma_obj_model_len(pairs@.subrange(0, i + 1));
            assert(obj_model(pairs@.subrange(0, i + 1)).drop_last() =~= obj_model(
                pairs@.subrange(0, i as int),
            ));
        }
        match &pairs[i].1 {
            JsonValue::Str(s) => {
                let ghost old_acc = acc@;
                acc.push((pairs[i].0.as_str(), s.as_str()));
                proof {
                    assert(env_model(acc@) =~= env_model(old_acc).push((pairs@[i as int].0@, s@)));
                }
            },
            w => {
                let e = DecodeError::TypeMismatch {
                    field: FieldId::Env,
                    expected: Shape::Str,
                    actual: shape(w),
                };
                proof {
                    lemma_obj_model_len(pairs@);
                    crate::value::lemma_obj_model_subrange(pairs@, i + 1);
                    lemma_decode_env_prefix_err(obj_model(pairs@), i + 1);
                }
                return Err(e);
            },
        }
        i = i + 1;
    }
    proof {
        assert(pairs@.subrange(0, i as int) =~= pairs@);
    }
    Ok(acc)
}

proof fn lemma_decode_authors_prefix_err(items: Seq<JsonModel>, i: int)
    requires
        0 <= i <= items.len(),
        decode_authors_items(items.subrange(0, i)) is Err,
    ensures
        decode_authors_items(items) == decode_authors_items(items.subrange(0, i)),
    decreases items.len(),
{
    if i < items.len() {
        assert(items.drop_last().subrange(0, i) =~= items.subrange(0, i));
        lemma_decode_authors_prefix_err(items.drop_last(), i);
    } else {
        assert(items.subrange(0, i) =~= items);
    }
}

/// Decodes the `authors` array; author names are owned copies.
fn decode_authors_vec(items: &Vec<JsonValue>) -> (r: Result<Vec<Author>, DecodeError>)
    ensures
        match r {
            Ok(v) => decode_authors_items(seq_model(items@)) == Ok::<
                Seq<Seq<char>>,
                ErrorModel,
            >(crate::model::authors_model(v@)),
            Err(e) => decode_authors_items(seq_model(items@)) == Err::<
                Seq<Seq<char>>,
                ErrorModel,
            >(e@),
        },
{
    let mut acc: Vec<Author> = Vec::new();
    let mut i: usize = 0;
    proof {
        assert(items@.subrange(0, 0) =~= Seq::<JsonValue>::empty());
        assert(crate::model::authors_model(acc@) =~= Seq::<Seq<char>>::empty());
    }
    while i < items.len()
        invariant
            0 <= i <= items.len(),
            acc@.len() == i,
            decode_authors_items(seq_model(items@.subrange(0, i as int))) == Ok::<
                Seq<Seq<char>>,
                ErrorModel,
            >(crate::model::authors_model(acc@)),
        decreases items.len() - i,
    {
        proof {
            lemma_seq_model_snoc(items@, i as int);
            lemma_seq_model_len(items@.subrange(0, i as int));
            lemma_seq_model_len(items@.subrange(0, i + 1));
            assert(seq_model(items@.subrange(0, i + 1)).drop_last() =~= seq_model(
                items@.subrange(0, i as int),
            ));
        }
        let item_err: DecodeError;
        match &items[i] {
            JsonValue::Obj(pairs) => {
                match get_req_str(pairs, "name", FieldId::AuthorName) {
                    Ok(s) => {
                        let ghost old_acc = acc@;
                        acc.push(Author { name: s.to_owned() });
                        proof {
                            assert(crate::model::authors_model(acc@) =~= crate::model::authors_model(
                                old_acc,
                            ).push(s@));
                        }
                        i = i + 1;
                        continue ;
                    },
                    Err(e) => {
                        item_err = e;
                    },
                }
            },
            w => {
                item_err = DecodeError::TypeMismatch {
                    field: FieldId::Authors,
                    expected: Shape::Obj,
                    actual: shape(w),
                };
            },
        }
        proof {
            lemma_seq_model_len(items@);
            crate::value::lemma_seq_model_subrange(items@, i + 1);
            lemma_decode_authors_prefix_err(seq_model(items@), i + 1);
        }
        return Err(item_err);
    }
    proof {
        assert(items@.subrange(0, i as int) =~= items@);
    }
    Ok(acc)
}

/// Decodes a kernel specification, borrowing every string from the input.
pub fn decode_kernel_spec<'a>(v: &'a JsonValue) -> (r: Result<
    KernelSpecification<'a>,
    DecodeError,
>)
    ensures
        match r {
            Ok(ks) => decode_kernel_spec_model(v@) == Ok::<KernelSpecModel, ErrorModel>(ks@),
            Err(e) => decode_kernel_spec_model(v@) == Err::<KernelSpecModel, ErrorModel>(e@),
        },
{
    let pairs = match v {
        JsonValue::Obj(pairs) => pairs,
        _ => {
            return Err(
                DecodeError::TypeMismatch {
                    field: FieldId::Kernelspec,
                    expected: Shape::Obj,
                    actual: shape(v),
                },
            );
        },
    };
    let argv: Option<Vec<&'a str>> = match obj_get(pairs, "argv") {
        None => None,
        Some(w) => match w {
            JsonValue::Null => None,
            JsonValue::Arr(items) => match decode_str_items(items, FieldId::Argv) {
                Ok(vs) => Some(vs),
                Err(e) => {
                    return Err(e);
                },
            },
            _ => {
                return Err(
                    DecodeError::TypeMismatch {
                        field: FieldId::Argv,
                        expected: Shape::Arr,
                        actual: shape(w),
                    },
                );
            },
        },
    };
    let display_name = match get_req_str(pairs, "display_name", FieldId::DisplayName) {
        Ok(s) => s,
        Err(e) => {
            return Err(e);
        },
    };
    let language = match get_req_str(pairs, "language", FieldId::Language) {
        Ok(s) => s,
        Err(e) => {
            return Err(e);
        },
    };
    let env: Option<Vec<(&'a str, &'a str)>> = match obj_get(pairs, "env") {
        None => None,
        Some(w) => match w {
            JsonValue::Null => None,
            JsonValue::Obj(members) => match decode_env_items(members) {
                Ok(es) => Some(es),
                Err(e) => {
                    return Err(e);
                },
            },
            _ => {
                return Err(
                    DecodeError::TypeMismatch {
                        field: FieldId::Env,
                        expected: Shape::Obj,
                        actual: shape(w),
                    },
                );
            },
        },
    };
    let interrupt_mode: Option<InterruptMode> = match obj_get(pairs, "interrupt_mode") {
        None => None,
        Some(w) => match w {
            JsonValue::Null => None,
            JsonValue::Str(s) => if str_eq(s.as_str(), "signal") {
                Some(InterruptMode::Signal)
            } else if str_eq(s.as_str(), "message") {
                Some(InterruptMode::Message)
            } else {
                return Err(
                    DecodeError::TypeMismatch {
                        field: FieldId::InterruptMode,
                        expected: Shape::Str,
                        actual: Shape::Str,
                    },
                );
            },
            _ => {
                return Err(
                    DecodeError::TypeMismatch {
                        field: FieldId::InterruptMode,
                        expected: Shape::Str,
                        actual: shape(w),
                    },
                );
            },
        },
    };
    Ok(KernelSpecification { argv, display_name, language, env, interrupt_mode })
}

/// Decodes cell metadata; every field is required.
pub fn decode_cell_metadata<'a>(v: &'a JsonValue) -> (r: Result<Metadata<'a>, DecodeError>)
    ensures
        match r {
            Ok(md) => decode_metadata_model(v@) == Ok::<MetadataModel, ErrorModel>(md@),
            Err(e) => decode_metadata_model(v@) == Err::<MetadataModel, ErrorModel>(e@),
        },
{
    let pairs = match v {
        JsonValue::Obj(pairs) => pairs,
        _ => {
            return Err(
                DecodeError::TypeMismatch {
                    field: FieldId::Metadata,
                    expected: Shape::Obj,
                    actual: shape(v),
                },
            );
        },
    };
    let name = match get_req_str(pairs, "name", FieldId::Name) {
        Ok(s) => s,
        Err(e) => {
            return Err(e);
        },
    };
    let tags: Vec<&'a str> = match obj_get(pairs, "tags") {
        None => {
            return Err(DecodeError::MissingField { field: FieldId::Tags });
        },
        Some(w) => match w {
            JsonValue::Arr(items) => match decode_str_items(items, FieldId::Tags) {
                Ok(vs) => vs,
                Err(e) => {
                    return Err(e);
                },
            },
            _ => {
                return Err(
                    DecodeError::TypeMismatch {
                        field: FieldId::Tags,
                        expected: Shape::Arr,
                        actual: shape(w),
                    },
                );
            },
        },
    };
    let format = match get_req_str(pairs, "format", FieldId::Format) {
        Ok(s) => s,
        Err(e) => {
            return Err(e);
        },
    };
    let collapsed = match get_req_bool(pairs, "collapsed", FieldId::Collapsed) {
        Ok(b) => b,
        Err(e) => {
            return Err(e);
        },
    };
    let scrolled = match get_req_bool(pairs, "scrolled", FieldId::Scrolled) {
        Ok(b) => b,
        Err(e) => {
            return Err(e);
        },
    };
    let deletable = match get_req_bool(pairs, "deletable", FieldId::Deletable) {
        Ok(b) => b,
        Err(e) => {
            return Err(e);
        },
    };
    let editable = match get_req_bool(pairs, "editable", FieldId::Editable) {
        Ok(b) => b,
        Err(e) => {
            return Err(e);
        },
    };
    Ok(Metadata { name, tags, format, collapsed, scrolled, deletable, editable })
}

/// Decodes one cell.
pub fn decode_cell<'a>(v: &'a JsonValue) -> (r: Result<NotebookCell<'a>, DecodeError>)
    ensures
        match r {
            Ok(c) => decode_cell_model(v@) == Ok::<CellModel, ErrorModel>(c@),
            Err(e) => decode_cell_model(v@) == Err::<CellModel, ErrorModel>(e@),
        },
{
    let pairs = match v {
        JsonValue::Obj(pairs) => pairs,
        _ => {
            return Err(
                DecodeError::TypeMismatch {
                    field: FieldId::Cells,
                    expected: Shape::Obj,
                    actual: shape(v),
                },
            );
        },
    };
    let metadata = match obj_get(pairs, "metadata") {
        None => {
            return Err(DecodeError::MissingField { field: FieldId::Metadata });
        },
        Some(w) => match decode_cell_metadata(w) {
            Ok(md) => md,
            Err(e) => {
                return Err(e);
            },
        },
    };
    let source: String = match get_req_str(pairs, "source", FieldId::Source) {
        Ok(s) => s.to_owned(),
        Err(e) => {
            return Err(e);
        },
    };
    let cell_type = match obj_get(pairs, "cell_type") {
        None => {
            return Err(DecodeError::MissingField { field: FieldId::CellType });
        },
        Some(w) => match w {
            JsonValue::Str(s) => match CellType::parse_token(s.as_str()) {
                Ok(t) => t,
                Err(pe) => {
                    return Err(DecodeError::Parse(pe));
                },
            },
            _ => {
                return Err(
                    DecodeError::TypeMismatch {
                        field: FieldId::CellType,
                        expected: Shape::Str,
                        actual: shape(w),
                    },
                );
            },
        },
    };
    Ok(NotebookCell { metadata, source, cell_type })
}

proof fn lemma_decode_cells_prefix_err(items: Seq<JsonModel>, i: int)
    requires
        0 <= i <= items.len(),
        decode_cells_models(items.subrange(0, i)) is Err,
    ensures
        decode_cells_models(items) == decode_cells_models(items.subrange(0, i)),
    decreases items.len(),
{
    if i < items.len() {
        assert(items.drop_last().subrange(0, i) =~= items.subrange(0, i));
        lemma_decode_cells_prefix_err(items.drop_last(), i);
    } else {
        assert(items.subrange(0, i) =~= items);
    }
}

/// Decodes the cells, in document order.
pub fn decode_cells<'a>(items: &'a Vec<JsonValue>) -> (r: Result<
    Vec<NotebookCell<'a>>,
    DecodeError,
>)
    ensures
        match r {
            Ok(v) => decode_cells_models(seq_model(items@)) == Ok::<Seq<CellModel>, ErrorModel>(
                crate::model::cells_model(v@),
            ),
            Err(e) => decode_cells_models(seq_model(items@)) == Err::<Seq<CellModel>, ErrorModel>(
                e@,
            ),
        },
{
    let mut acc: Vec<NotebookCell<'a>> = Vec::new();
    let mut i: usize = 0;
    proof {
        assert(items@.subrange(0, 0) =~= Seq::<JsonValue>::empty());
        assert(crate::model::cells_model(acc@) =~= Seq::<CellModel>::empty());
    }
    while i < items.len()
        invariant
            0 <= i <= items.len(),
            acc@.len() == i,
            decode_cells_models(seq_model(items@.subrange(0, i as int))) == Ok::<
                Seq<CellModel>,
                ErrorModel,
            >(crate::model::cells_model(acc@)),
        decreases items.len() - i,
    {
        proof {
            lemma_seq_model_snoc(items@, i as int);
            lemma_seq_model_len(items@.subrange(0, i as int));
            lemma_seq_model_len(items@.subrange(0, i + 1));
            assert(seq_model(items@.subrange(0, i + 1)).drop_last() =~= seq_model(
                items@.subrange(0, i as int),
            ));
        }
        match decode_cell(&items[i]) {
            Ok(c) => {
                let ghost old_acc = acc@;
                let ghost cm = c@;
                acc.push(c);
                proof {
                    assert(crate::model::cells_model(acc@) =~= crate::model::cells_model(
                        old_acc,
                    ).push(cm));
                }
            },
            Err(e) => {
                proof {
                    lemma_seq_model_len(items@);
                    crate::value::lemma_seq_model_subrange(items@, i + 1);
                    lemma_decode_cells_prefix_err(seq_model(items@), i + 1);
                }
                return Err(e);
            },
        }
        i = i + 1;
    }
    proof {
        assert(items@.subrange(0, i as int) =~= items@);
    }
    Ok(acc)
}

/// Decodes document metadata. `language_info` in the input is ignored:
/// the decoded field is always no-value.
pub fn decode_notebook_metadata<'a>(v: &'a JsonValue) -> (r: Result<
    NotebookMetadata<'a>,
    DecodeError,
>)
    ensures
        match r {
            Ok(md) => decode_notebook_metadata_model(v@) == Ok::<
                NotebookMetadataModel,
                ErrorModel,
            >(md@),
            Err(e) => decode_notebook_metadata_model(v@) == Err::<
                NotebookMetadataModel,
                ErrorModel,
            >(e@),
        },
{
    let pairs = match v {
        JsonValue::Obj(pairs) => pairs,
        _ => {
            return Err(
                DecodeError::TypeMismatch {
                    field: FieldId::Metadata,
                    expected: Shape::Obj,
                    actual: shape(v),
                },
            );
        },
    };
    let kernel_spec = match obj_get(pairs, "kernelspec") {
        None => {
            return Err(DecodeError::MissingField { field: FieldId::Kernelspec });
        },
        Some(w) => match decode_kernel_spec(w) {
            Ok(ks) => ks,
            Err(e) => {
                return Err(e);
            },
        },
    };
    let authors: Vec<Author> = match obj_get(pairs, "authors") {
        None => Vec::new(),
        Some(w) => match w {
            JsonValue::Arr(items) => match decode_authors_vec(items) {
                Ok(v2) => v2,
                Err(e) => {
                    return Err(e);
                },
            },
            _ => {
                return Err(
                    DecodeError::TypeMismatch {
                        field: FieldId::Authors,
                        expected: Shape::Arr,
                        actual: shape(w),
                    },
                );
            },
        },
    };
    proof {
        assert(crate::model::authors_model(Seq::<Author>::empty()) =~= Seq::<Seq<char>>::empty());
    }
    Ok(NotebookMetadata { kernel_spec, language_info: None, authors })
}

/// Decodes a whole notebook document from a structured-text value. The
/// result is exactly what `decode_notebook_model` says of the input's
/// model, for every input: decoded string fields borrow from `v`, and
/// `language_info` is always no-value after a decode.
pub fn decode_notebook<'a>(v: &'a JsonValue) -> (r: Result<Notebook<'a>, DecodeError>)
    ensures
        match r {
            Ok(nb) => decode_notebook_model(v@) == Ok::<NotebookModel, ErrorModel>(nb@),
            Err(e) => decode_notebook_model(v@) == Err::<NotebookModel, ErrorModel>(e@),
        },
{
    let pairs = match v {
        JsonValue::Obj(pairs) => pairs,
        _ => {
            return Err(
                DecodeError::TypeMismatch {
                    field: FieldId::Root,
                    expected: Shape::Obj,
                    actual: shape(v),
                },
            );
        },
    };
    let metadata = match obj_get(pairs, "metadata") {
        None => {
            return Err(DecodeError::MissingField { field: FieldId::Metadata });
        },
        Some(w) => match decode_notebook_metadata(w) {
            Ok(md) => md,
            Err(e) => {
                return Err(e);
            },
        },
    };
    let cells: Vec<NotebookCell<'a>> = match obj_get(pairs, "cells") {
        None => {
            return Err(DecodeError::MissingField { field: FieldId::Cells });
        },
        Some(w) => match w {
            JsonValue::Arr(items) => match decode_cells(items) {
                Ok(cs) => cs,
                Err(e) => {
                    return Err(e);
                },
            },
            _ => {
                return Err(
                    DecodeError::TypeMismatch {
                        field: FieldId::Cells,
                        expected: Shape::Arr,
                        actual: shape(w),
                    },
                );
            },
        },
    };
    let nbformat = match get_req_u16(pairs, "nbformat", FieldId::Nbformat) {
        Ok(n) => n,
        Err(e) => {
            return Err(e);
        },
    };
    let nbformat_minor = match get_req_u16(pairs, "nbformat_minor", FieldId::NbformatMinor) {
        Ok(n) => n,
        Err(e) => {
            return Err(e);
        },
    };
    Ok(Notebook { metadata, cells, nbformat, nbformat_minor })
}

} // verus!
