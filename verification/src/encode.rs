//! Encoding: from the typed notebook document to a structured-text value.
//!
//! The spec functions in this file are the encode contract, field by field:
//! `kernel_spec` encodes under the key `kernelspec` (the only renamed
//! field); no-value optional fields are omitted entirely, never emitted as
//! null; sequences and mappings keep their stored order. Encoding cannot
//! fail: a well-typed document always encodes.
use vstd::prelude::*;

use crate::model::{
    Author, CellModel, CellType, InterruptMode, KernelSpecModel, KernelSpecification,
    LanguageInfo, LanguageInfoModel, Metadata, MetadataModel, Notebook, NotebookCell,
    NotebookMetadata, NotebookMetadataModel, NotebookModel, authors_model, cell_type_token,
    cells_model, env_model, strs_model,
};
use crate::value::{
    JsonModel, JsonValue, lemma_obj_model_index, lemma_obj_model_len, lemma_obj_model_push,
    lemma_seq_model_index, lemma_seq_model_len, lemma_seq_model_push, obj_model, seq_model,
};

verus! {

// ---------------------------------------------------------------------------
// The encode contract, field by field.
// ---------------------------------------------------------------------------

pub open spec fn encode_strings(s: Seq<Seq<char>>) -> Seq<JsonModel> {
    Seq::new(s.len(), |i: int| JsonModel::Str(s[i]))
}

pub open spec fn encode_env(s: Seq<(Seq<char>, Seq<char>)>) -> Seq<(Seq<char>, JsonModel)> {
    Seq::new(s.len(), |i: int| (s[i].0, JsonModel::Str(s[i].1)))
}

pub open spec fn encode_authors(s: Seq<Seq<char>>) -> Seq<JsonModel> {
    Seq::new(s.len(), |i: int| JsonModel::Obj(seq![("name"@, JsonModel::Str(s[i]))]))
}

pub open spec fn interrupt_token(im: InterruptMode) -> Seq<char> {
    match im {
        InterruptMode::Signal => "signal"@,
        InterruptMode::Message => "message"@,
    }
}

/// A kernel specification encodes to an object holding, in order: `argv`
/// if present, `display_name`, `language`, `env` if present, and
/// `interrupt_mode` if present. Absent optional fields leave no member.
pub open spec fn encode_kernel_spec_model(ks: KernelSpecModel) -> JsonModel {
    JsonModel::Obj(
        (match ks.argv {
            Some(a) => seq![("argv"@, JsonModel::Arr(encode_strings(a)))],
            None => Seq::empty(),
        }) + seq![
            ("display_name"@, JsonModel::Str(ks.display_name)),
            ("language"@, JsonModel::Str(ks.language)),
        ] + (match ks.env {
            Some(e) => seq![("env"@, JsonModel::Obj(encode_env(e)))],
            None => Seq::empty(),
        }) + (match ks.interrupt_mode {
            Some(im) => seq![("interrupt_mode"@, JsonModel::Str(interrupt_token(im)))],
            None => Seq::empty(),
        }),
    )
}

pub open spec fn encode_language_info_model(li: LanguageInfoModel) -> JsonModel {
    JsonModel::Obj(
        seq![
            ("file_extension"@, JsonModel::Str(li.file_extension)),
            ("mimetype"@, JsonModel::Str(li.mimetype)),
            ("name"@, JsonModel::Str(li.name)),
        ],
    )
}

/// Document metadata encodes its kernel specification under `kernelspec`,
/// then `language_info` if present, then `authors` (always, possibly
/// empty).
pub open spec fn encode_notebook_metadata_model(md: NotebookMetadataModel) -> JsonModel {
    JsonModel::Obj(
        seq![("kernelspec"@, encode_kernel_spec_model(md.kernel_spec))] + (match md.language_info {
            Some(li) => seq![("language_info"@, encode_language_info_model(li))],
            None => Seq::empty(),
        }) + seq![("authors"@, JsonModel::Arr(encode_authors(md.authors)))],
    )
}

pub open spec fn encode_metadata_model(cm: MetadataModel) -> JsonModel {
    JsonModel::Obj(
        seq![
            ("name"@, JsonModel::Str(cm.name)),
            ("tags"@, JsonModel::Arr(encode_strings(cm.tags))),
            ("format"@, JsonModel::Str(cm.format)),
            ("collapsed"@, JsonModel::Bool(cm.collapsed)),
            ("scrolled"@, JsonModel::Bool(cm.scrolled)),
            ("deletable"@, JsonModel::Bool(cm.deletable)),
            ("editable"@, JsonModel::Bool(cm.editable)),
        ],
    )
}

pub open spec fn encode_cell_model(c: CellModel) -> JsonModel {
    JsonModel::Obj(
        seq![
            ("metadata"@, encode_metadata_model(c.metadata)),
            ("source"@, JsonModel::Str(c.source)),
            ("cell_type"@, JsonModel::Str(cell_type_token(c.cell_type))),
        ],
    )
}

pub open spec fn encode_cells(s: Seq<CellModel>) -> Seq<JsonModel> {
    Seq::new(s.len(), |i: int| encode_cell_model(s[i]))
}

/// A whole document encodes to an object holding, in order: `metadata`,
/// `cells`, `nbformat` and `nbformat_minor`. This spec function is the
/// entire encode contract: `encode_notebook` returns exactly this.
pub open spec fn encode_notebook_model(nb: NotebookModel) -> JsonModel {
    JsonModel::Obj(
        seq![
            ("metadata"@, encode_notebook_metadata_model(nb.metadata)),
            ("cells"@, JsonModel::Arr(encode_cells(nb.cells))),
            ("nbformat"@, JsonModel::Int(nb.nbformat as i64)),
            ("nbformat_minor"@, JsonModel::Int(nb.nbformat_minor as i64)),
        ],
    )
}

// ---------------------------------------------------------------------------
// Executable encoders.
// ---------------------------------------------------------------------------

fn encode_str_items(items: &Vec<&str>) -> (r: Vec<JsonValue>)
    ensures
        seq_model(r@) == encode_strings(strs_model(items@)),
{
    let mut acc: Vec<JsonValue> = Vec::new();
    let mut i: usize = 0;
    proof {
        lemma_seq_model_len(acc@);
    }
    while i < items.len()
        invariant
            0 <= i <= items.len(),
            acc@.len() == i,
            seq_model(acc@).len() == i,
            forall|j: int| 0 <= j < i ==> seq_model(acc@)[j] == JsonModel::Str(items@[j]@),
        decreases items.len() - i,
    {
        let ghost old_acc = acc@;
        acc.push(JsonValue::Str(items[i].to_owned()));
        proof {
            lemma_seq_model_push(old_acc, acc@.last());
            lemma_seq_model_len(acc@);
        }
        i = i + 1;
    }
    proof {
        assert(seq_model(acc@) =~= encode_strings(strs_model(items@)));
    }
    acc
}

fn encode_env_items(items: &Vec<(&str, &str)>) -> (r: Vec<(String, JsonValue)>)
    ensures
        obj_model(r@) == encode_env(env_model(items@)),
{
    let mut acc: Vec<(String, JsonValue)> = Vec::new();
    let mut i: usize = 0;
    proof {
        lemma_obj_model_len(acc@);
    }
    while i < items.len()
        invariant
            0 <= i <= items.len(),
            acc@.len() == i,
            obj_model(acc@).len() == i,
            forall|j: int|
                0 <= j < i ==> obj_model(acc@)[j] == (
                    items@[j].0@,
                    JsonModel::Str(items@[j].1@),
                ),
        decreases items.len() - i,
    {
        let ghost old_acc = acc@;
        acc.push((items[i].0.to_owned(), JsonValue::Str(items[i].1.to_owned())));
        proof {
            lemma_obj_model_push(old_acc, acc@.last());
            lemma_obj_model_len(acc@);
        }
        i = i + 1;
    }
    proof {
        assert(obj_model(acc@) =~= encode_env(env_model(items@)));
    }
    acc
}

fn encode_authors_vec(items: &Vec<Author>) -> (r: Vec<JsonValue>)
    ensures
        seq_model(r@) == encode_authors(authors_model(items@)),
{
    let mut acc: Vec<JsonValue> = Vec::new();
    let mut i: usize = 0;
    proof {
        lemma_seq_model_len(acc@);
    }
    while i < items.len()
        invariant
            0 <= i <= items.len(),
            acc@.len() == i,
            seq_model(acc@).len() == i,
            forall|j: int|
                0 <= j < i ==> seq_model(acc@)[j] == JsonModel::Obj(
                    seq![("name"@, JsonModel::Str(items@[j]@))],
                ),
        decreases items.len() - i,
    {
        let ghost old_acc = acc@;
        let mut member: Vec<(String, JsonValue)> = Vec::new();
        member.push(("name".to_owned(), JsonValue::Str(items[i].name.clone())));
        proof {
            lemma_obj_model_push(Seq::empty(), member@.last());
            assert(obj_model(member@) =~= seq![("name"@, JsonModel::Str(items@[i as int]@))]);
        }
        acc.push(JsonValue::Obj(member));
        proof {
            lemma_seq_model_push(old_acc, acc@.last());
            lemma_seq_model_len(acc@);
        }
        i = i + 1;
    }
    proof {
        assert(seq_model(acc@) =~= encode_authors(authors_model(items@)));
    }
    acc
}

impl InterruptMode {
    /// The token this interrupt mode encodes to.
    pub fn token(&self) -> (r: &'static str)
        ensures
            r@ == interrupt_token(*self),
    {
        match self {
            InterruptMode::Signal => "signal",
            InterruptMode::Message => "message",
        }
    }
}

/// Encodes cell metadata; every field is emitted, in declaration order.
pub fn encode_cell_metadata(cm: &Metadata) -> (r: JsonValue)
    ensures
        r@ == encode_metadata_model(cm@),
{
    let mut pairs: Vec<(String, JsonValue)> = Vec::new();
    pairs.push(("name".to_owned(), JsonValue::Str(cm.name.to_owned())));
    pairs.push(("tags".to_owned(), JsonValue::Arr(encode_str_items(&cm.tags))));
    pairs.push(("format".to_owned(), JsonValue::Str(cm.format.to_owned())));
    pairs.push(("collapsed".to_owned(), JsonValue::Bool(cm.collapsed)));
    pairs.push(("scrolled".to_owned(), JsonValue::Bool(cm.scrolled)));
    pairs.push(("deletable".to_owned(), JsonValue::Bool(cm.deletable)));
    pairs.push(("editable".to_owned(), JsonValue::Bool(cm.editable)));
    proof {
        lemma_obj_model_len(pairs@);
        assert forall|j: int| 0 <= j < 7 implies obj_model(pairs@)[j] == (
            encode_metadata_model(cm@)->Obj_0
        )[j] by {
            lemma_obj_model_index(pairs@, j);
        }
        assert(obj_model(pairs@) =~= encode_metadata_model(cm@)->Obj_0);
    }
    JsonValue::Obj(pairs)
}

/// Encodes one cell: `metadata`, `source`, `cell_type`.
pub fn encode_cell(c: &NotebookCell) -> (r: JsonValue)
    ensures
        r@ == encode_cell_model(c@),
{
    let mut pairs: Vec<(String, JsonValue)> = Vec::new();
    pairs.push(("metadata".to_owned(), encode_cell_metadata(&c.metadata)));
    pairs.push(("source".to_owned(), JsonValue::Str(c.source.clone())));
    pairs.push(("cell_type".to_owned(), JsonValue::Str(c.cell_type.token().to_owned())));
    proof {
        lemma_obj_model_len(pairs@);
        assert forall|j: int| 0 <= j < 3 implies obj_model(pairs@)[j] == (
            encode_cell_model(c@)->Obj_0
        )[j] by {
            lemma_obj_model_index(pairs@, j);
        }
        assert(obj_model(pairs@) =~= encode_cell_model(c@)->Obj_0);
    }
    JsonValue::Obj(pairs)
}

fn encode_cells_vec(items: &Vec<NotebookCell>) -> (r: Vec<JsonValue>)
    ensures
        seq_model(r@) == encode_cells(cells_model(items@)),
{
    let mut acc: Vec<JsonValue> = Vec::new();
    let mut i: usize = 0;
    proof {
        lemma_seq_model_len(acc@);
    }
    while i < items.len()
        invariant
            0 <= i <= items.len(),
            acc@.len() == i,
            seq_model(acc@).len() == i,
            forall|j: int| 0 <= j < i ==> seq_model(acc@)[j] == encode_cell_model(items@[j]@),
        decreases items.len() - i,
    {
        let ghost old_acc = acc@;
        acc.push(encode_cell(&items[i]));
        proof {
            lemma_seq_model_push(old_acc, acc@.last());
            lemma_seq_model_len(acc@);
        }
        i = i + 1;
    }
    proof {
        assert(seq_model(acc@) =~= encode_cells(cells_model(items@)));
    }
    acc
}

/// Encodes language information; all three fields are emitted.
pub fn encode_language_info(li: &LanguageInfo) -> (r: JsonValue)
    ensures
        r@ == encode_language_info_model(li@),
{
    let mut pairs: Vec<(String, JsonValue)> = Vec::new();
    pairs.push(("file_extension".to_owned(), JsonValue::Str(li.file_extension.to_owned())));
    pairs.push(("mimetype".to_owned(), JsonValue::Str(li.mimetype.to_owned())));
    pairs.push(("name".to_owned(), JsonValue::Str(li.name.to_owned())));
    proof {
        lemma_obj_model_len(pairs@);
        assert forall|j: int| 0 <= j < 3 implies obj_model(pairs@)[j] == (
            encode_language_info_model(li@)->Obj_0
        )[j] by {
            lemma_obj_model_index(pairs@, j);
        }
        assert(obj_model(pairs@) =~= encode_language_info_model(li@)->Obj_0);
    }
    JsonValue::Obj(pairs)
}

/// Encodes a kernel specification, omitting absent optional fields.
pub fn encode_kernel_spec(ks: &KernelSpecification) -> (r: JsonValue)
    ensures
        r@ == encode_kernel_spec_model(ks@),
{
    let ghost seg_argv: Seq<(Seq<char>, JsonModel)> = match ks@.argv {
        Some(a) => seq![("argv"@, JsonModel::Arr(encode_strings(a)))],
        None => Seq::empty(),
    };
    let ghost seg_env: Seq<(Seq<char>, JsonModel)> = match ks@.env {
        Some(e) => seq![("env"@, JsonModel::Obj(encode_env(e)))],
        None => Seq::empty(),
    };
    let ghost seg_im: Seq<(Seq<char>, JsonModel)> = match ks@.interrupt_mode {
        Some(im) => seq![("interrupt_mode"@, JsonModel::Str(interrupt_token(im)))],
        None => Seq::empty(),
    };
    let mut pairs: Vec<(String, JsonValue)> = Vec::new();
    match &ks.argv {
        Some(v) => {
            let ghost old_pairs = pairs@;
            pairs.push(("argv".to_owned(), JsonValue::Arr(encode_str_items(v))));
            proof {
                lemma_obj_model_push(old_pairs, pairs@.last());
                assert(obj_model(pairs@) =~= seg_argv);
            }
        },
        None => {
            proof {
                assert(obj_model(pairs@) =~= seg_argv);
            }
        },
    }
    let ghost after_argv = pairs@;
    {
        let ghost old_pairs = pairs@;
        pairs.push(("display_name".to_owned(), JsonValue::Str(ks.display_name.to_owned())));
        proof {
            lemma_obj_model_push(old_pairs, pairs@.last());
        }
    }
    {
        let ghost old_pairs = pairs@;
        pairs.push(("language".to_owned(), JsonValue::Str(ks.language.to_owned())));
        proof {
            lemma_obj_model_push(old_pairs, pairs@.last());
            assert(obj_model(pairs@) =~= seg_argv + seq![
                ("display_name"@, JsonModel::Str(ks.display_name@)),
                ("language"@, JsonModel::Str(ks.language@)),
            ]);
        }
    }
    let ghost after_lang = obj_model(pairs@);
    match &ks.env {
        Some(v) => {
            let ghost old_pairs = pairs@;
            pairs.push(("env".to_owned(), JsonValue::Obj(encode_env_items(v))));
            proof {
                lemma_obj_model_push(old_pairs, pairs@.last());
                assert(obj_model(pairs@) =~= after_lang + seg_env);
            }
        },
        None => {
            proof {
                assert(obj_model(pairs@) =~= after_lang + seg_env);
            }
        },
    }
    let ghost after_env = obj_model(pairs@);
    match ks.interrupt_mode {
        Some(im) => {
            let ghost old_pairs = pairs@;
            pairs.push(("interrupt_mode".to_owned(), JsonValue::Str(im.token().to_owned())));
            proof {
                lemma_obj_model_push(old_pairs, pairs@.last());
                assert(obj_model(pairs@) =~= after_env + seg_im);
            }
        },
        None => {
            proof {
                assert(obj_model(pairs@) =~= after_env + seg_im);
            }
        },
    }
    proof {
        assert(obj_model(pairs@) =~= encode_kernel_spec_model(ks@)->Obj_0);
    }
    JsonValue::Obj(pairs)
}

/// Encodes document metadata: `kernelspec`, then `language_info` when it
/// is present, then `authors`.
pub fn encode_notebook_metadata(md: &NotebookMetadata) -> (r: JsonValue)
    ensures
        r@ == encode_notebook_metadata_model(md@),
{
    let ghost seg_li: Seq<(Seq<char>, JsonModel)> = match md@.language_info {
        Some(li) => seq![("language_info"@, encode_language_info_model(li))],
        None => Seq::empty(),
    };
    let mut pairs: Vec<(String, JsonValue)> = Vec::new();
    {
        let ghost old_pairs = pairs@;
        pairs.push(("kernelspec".to_owned(), encode_kernel_spec(&md.kernel_spec)));
        proof {
            lemma_obj_model_push(old_pairs, pairs@.last());
        }
    }
    let ghost after_ks = obj_model(pairs@);
    match &md.language_info {
        Some(li) => {
            let ghost old_pairs = pairs@;
            pairs.push(("language_info".to_owned(), encode_language_info(li)));
            proof {
                lemma_obj_model_push(old_pairs, pairs@.last());
                assert(obj_model(pairs@) =~= after_ks + seg_li);
            }
        },
        None => {
            proof {
                assert(obj_model(pairs@) =~= after_ks + seg_li);
            }
        },
    }
    {
        let ghost old_pairs = pairs@;
        pairs.push(("authors".to_owned(), JsonValue::Arr(encode_authors_vec(&md.authors))));
        proof {
            lemma_obj_model_push(old_pairs, pairs@.last());
        }
    }
    proof {
        assert(obj_model(pairs@) =~= encode_notebook_metadata_model(md@)->Obj_0);
    }
    JsonValue::Obj(pairs)
}

/// Encodes a whole notebook document. The result is exactly what
/// `encode_notebook_model` says of the document's model; encoding never
/// fails.
pub fn encode_notebook(nb: &Notebook) -> (r: JsonValue)
    ensures
        r@ == encode_notebook_model(nb@),
{
    let mut pairs: Vec<(String, JsonValue)> = Vec::new();
    pairs.push(("metadata".to_owned(), encode_notebook_metadata(&nb.metadata)));
    pairs.push(("cells".to_owned(), JsonValue::Arr(encode_cells_vec(&nb.cells))));
    pairs.push(("nbformat".to_owned(), JsonValue::Int(nb.nbformat as i64)));
    pairs.push(("nbformat_minor".to_owned(), JsonValue::Int(nb.nbformat_minor as i64)));
    proof {
        lemma_obj_model_len(pairs@);
        assert forall|j: int| 0 <= j < 4 implies obj_model(pairs@)[j] == (
            encode_notebook_model(nb@)->Obj_0
        )[j] by {
            lemma_obj_model_index(pairs@, j);
        }
        assert(obj_model(pairs@) =~= encode_notebook_model(nb@)->Obj_0);
    }
    JsonValue::Obj(pairs)
}

} // verus!
