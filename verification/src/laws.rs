//! The laws the codec obeys, proved from the decode and encode contracts.
use vstd::prelude::*;

use crate::model::{
    CellModel, CellType, ErrorModel, FieldId, KernelSpecModel, MetadataModel,
    NotebookMetadataModel, NotebookModel, cell_type_of_token, cell_type_token,
};
use crate::decode::{
    decode_authors_items, decode_cell_model, decode_cells_models, decode_env_members,
    decode_kernel_spec_model, decode_metadata_model, decode_notebook_metadata_model,
    decode_notebook_model, decode_strings, req_str_field,
};
use crate::encode::{
    encode_authors, encode_cell_model, encode_cells, encode_env, encode_kernel_spec_model,
    encode_language_info_model, encode_metadata_model, encode_notebook_metadata_model,
    encode_notebook_model, encode_strings, interrupt_token,
};
use crate::value::{JsonModel, obj_lookup};

verus! {

/// Cell-type exhaustiveness: `"markdown"` decodes to Markdown, `"code"` to
/// Code, and every other token fails with a parse error naming that token
/// verbatim.
pub proof fn lemma_cell_type_tokens()
    ensures
        cell_type_of_token("markdown"@) == Ok::<CellType, ErrorModel>(CellType::Markdown),
        cell_type_of_token("code"@) == Ok::<CellType, ErrorModel>(CellType::Code),
        forall|s: Seq<char>|
            s != "markdown"@ && s != "code"@ ==> cell_type_of_token(s) == Err::<
                CellType,
                ErrorModel,
            >(ErrorModel::Parse { attempted: s }),
{
    reveal_strlit("markdown");
    reveal_strlit("code");
    assert("markdown"@.len() == 8);
    assert("code"@.len() == 4);
}

/// Decoding the encoding of a cell type gives it back.
proof fn lemma_rt_cell_type(t: CellType)
    ensures
        cell_type_of_token(cell_type_token(t)) == Ok::<CellType, ErrorModel>(t),
{
    reveal_strlit("markdown");
    reveal_strlit("code");
    assert("markdown"@.len() == 8);
    assert("code"@.len() == 4);
}

proof fn lemma_rt_strings(s: Seq<Seq<char>>, f: FieldId)
    ensures
        decode_strings(encode_strings(s), f) == Ok::<Seq<Seq<char>>, ErrorModel>(s),
    decreases s.len(),
{
    if s.len() == 0 {
        assert(encode_strings(s) =~= Seq::<JsonModel>::empty());
        assert(s =~= Seq::<Seq<char>>::empty());
    } else {
        lemma_rt_strings(s.drop_last(), f);
        assert(encode_strings(s).drop_last() =~= encode_strings(s.drop_last()));
        assert(encode_strings(s).last() == JsonModel::Str(s.last()));
        assert(s.drop_last().push(s.last()) =~= s);
    }
}

proof fn lemma_rt_env(s: Seq<(Seq<char>, Seq<char>)>)
    ensures
        decode_env_members(encode_env(s)) == Ok::<Seq<(Seq<char>, Seq<char>)>, ErrorModel>(s),
    decreases s.len(),
{
    if s.len() == 0 {
        assert(encode_env(s) =~= Seq::<(Seq<char>, JsonModel)>::empty());
        assert(s =~= Seq::<(Seq<char>, Seq<char>)>::empty());
    } else {
        lemma_rt_env(s.drop_last());
        assert(encode_env(s).drop_last() =~= encode_env(s.drop_last()));
        assert(encode_env(s).last() == (s.last().0, JsonModel::Str(s.last().1)));
        assert(s.drop_last().push(s.last()) =~= s);
    }
}

proof fn lemma_rt_authors(s: Seq<Seq<char>>)
    ensures
        decode_authors_items(encode_authors(s)) == Ok::<Seq<Seq<char>>, ErrorModel>(s),
    decreases s.len(),
{
    if s.len() == 0 {
        assert(encode_authors(s) =~= Seq::<JsonModel>::empty());
        assert(s =~= Seq::<Seq<char>>::empty());
    } else {
        lemma_rt_authors(s.drop_last());
        assert(encode_authors(s).drop_last() =~= encode_authors(s.drop_last()));
        let last = encode_authors(s).last();
        assert(last == JsonModel::Obj(seq![("name"@, JsonModel::Str(s.last()))]));
        assert(req_str_field(last->Obj_0, "name"@, FieldId::AuthorName) == Ok::<
            Seq<char>,
            ErrorModel,
        >(s.last()));
        assert(s.drop_last().push(s.last()) =~= s);
    }
}

/// Lookup finds the member at `k` when no earlier member has its key.
proof fn lemma_lookup_at(o: Seq<(Seq<char>, JsonModel)>, key: Seq<char>, k: int)
    requires
        0 <= k < o.len(),
        o[k].0 == key,
        forall|j: int| 0 <= j < k ==> o[j].0 != key,
    ensures
        obj_lookup(o, key) == Some(o[k].1),
{
    crate::value::lemma_obj_lookup_skip(o, key, k);
    assert(o.skip(k)[0] == o[k]);
}

proof fn lemma_rt_cell_metadata(cm: MetadataModel)
    ensures
        decode_metadata_model(encode_metadata_model(cm)) == Ok::<MetadataModel, ErrorModel>(cm),
{
    reveal_strlit("name");
    reveal_strlit("tags");
    reveal_strlit("format");
    reveal_strlit("collapsed");
    reveal_strlit("scrolled");
    reveal_strlit("deletable");
    reveal_strlit("editable");
    assert("name"@.len() == 4);
    assert("tags"@.len() == 4);
    assert("format"@.len() == 6);
    assert("collapsed"@.len() == 9);
    assert("scrolled"@.len() == 8);
    assert("deletable"@.len() == 9);
    assert("editable"@.len() == 8);
    assert("name"@[0] == 'n' && "tags"@[0] == 't');
    assert("collapsed"@[0] == 'c' && "deletable"@[0] == 'd');
    assert("scrolled"@[0] == 's' && "editable"@[0] == 'e');
    let o = encode_metadata_model(cm)->Obj_0;
    assert(o[0].0 == "name"@);
    assert(o[1].0 == "tags"@);
    assert(o[2].0 == "format"@);
    assert(o[3].0 == "collapsed"@);
    assert(o[4].0 == "scrolled"@);
    assert(o[5].0 == "deletable"@);
    assert(o[6].0 == "editable"@);
    lemma_lookup_at(o, "name"@, 0);
    lemma_lookup_at(o, "tags"@, 1);
    lemma_lookup_at(o, "format"@, 2);
    lemma_lookup_at(o, "collapsed"@, 3);
    lemma_lookup_at(o, "scrolled"@, 4);
    lemma_lookup_at(o, "deletable"@, 5);
    lemma_lookup_at(o, "editable"@, 6);
    lemma_rt_strings(cm.tags, FieldId::Tags);
}

proof fn lemma_rt_cell(c: CellModel)
    ensures
        decode_cell_model(encode_cell_model(c)) == Ok::<CellModel, ErrorModel>(c),
{
    reveal_strlit("metadata");
    reveal_strlit("source");
    reveal_strlit("cell_type");
    assert("metadata"@.len() == 8);
    assert("source"@.len() == 6);
    assert("cell_type"@.len() == 9);
    let o = encode_cell_model(c)->Obj_0;
    assert(o[0].0 == "metadata"@);
    assert(o[1].0 == "source"@);
    assert(o[2].0 == "cell_type"@);
    lemma_lookup_at(o, "metadata"@, 0);
    lemma_lookup_at(o, "source"@, 1);
    lemma_lookup_at(o, "cell_type"@, 2);
    lemma_rt_cell_metadata(c.metadata);
    lemma_rt_cell_type(c.cell_type);
}

proof fn lemma_rt_cells(s: Seq<CellModel>)
    ensures
        decode_cells_models(encode_cells(s)) == Ok::<Seq<CellModel>, ErrorModel>(s),
    decreases s.len(),
{
    if s.len() == 0 {
        assert(encode_cells(s) =~= Seq::<JsonModel>::empty());
        assert(s =~= Seq::<CellModel>::empty());
    } else {
        lemma_rt_cells(s.drop_last());
        assert(encode_cells(s).drop_last() =~= encode_cells(s.drop_last()));
        assert(encode_cells(s).last() == encode_cell_model(s.last()));
        lemma_rt_cell(s.last());
        assert(s.drop_last().push(s.last()) =~= s);
    }
}

proof fn lemma_rt_kernel_spec(ks: KernelSpecModel)
    ensures
        decode_kernel_spec_model(encode_kernel_spec_model(ks)) == Ok::<
            KernelSpecModel,
            ErrorModel,
        >(ks),
{
    reveal_strlit("argv");
    reveal_strlit("display_name");
    reveal_strlit("language");
    reveal_strlit("env");
    reveal_strlit("interrupt_mode");
    reveal_strlit("signal");
    reveal_strlit("message");
    assert("argv"@.len() == 4);
    assert("display_name"@.len() == 12);
    assert("language"@.len() == 8);
    assert("env"@.len() == 3);
    assert("interrupt_mode"@.len() == 14);
    assert("signal"@.len() == 6);
    assert("message"@.len() == 7);
    let o = encode_kernel_spec_model(ks)->Obj_0;
    let na: int = if ks.argv is Some { 1int } else { 0int };
    let ne: int = if ks.env is Some { 1int } else { 0int };
    let ni: int = if ks.interrupt_mode is Some { 1int } else { 0int };
    assert(o.len() == na + 2 + ne + ni);
    if ks.argv is Some {
        assert(o[0] == ("argv"@, JsonModel::Arr(encode_strings(ks.argv->0))));
    }
    assert(o[na] == ("display_name"@, JsonModel::Str(ks.display_name)));
    assert(o[na + 1] == ("language"@, JsonModel::Str(ks.language)));
    if ks.env is Some {
        assert(o[na + 2] == ("env"@, JsonModel::Obj(encode_env(ks.env->0))));
    }
    if ks.interrupt_mode is Some {
        assert(o[na + 2 + ne] == (
            "interrupt_mode"@,
            JsonModel::Str(interrupt_token(ks.interrupt_mode->0)),
        ));
    }
    // argv
    if ks.argv is Some {
        lemma_lookup_at(o, "argv"@, 0);
        lemma_rt_strings(ks.argv->0, FieldId::Argv);
    } else {
        assert forall|j: int| 0 <= j < o.len() implies o[j].0 != "argv"@ by {}
        crate::value::lemma_obj_lookup_absent(o, "argv"@);
    }
    // display_name and language
    lemma_lookup_at(o, "display_name"@, na);
    lemma_lookup_at(o, "language"@, na + 1);
    // env
    if ks.env is Some {
        lemma_lookup_at(o, "env"@, na + 2);
        lemma_rt_env(ks.env->0);
    } else {
        assert forall|j: int| 0 <= j < o.len() implies o[j].0 != "env"@ by {}
        crate::value::lemma_obj_lookup_absent(o, "env"@);
    }
    // interrupt_mode
    if ks.interrupt_mode is Some {
        lemma_lookup_at(o, "interrupt_mode"@, na + 2 + ne);
    } else {
        assert forall|j: int| 0 <= j < o.len() implies o[j].0 != "interrupt_mode"@ by {}
        crate::value::lemma_obj_lookup_absent(o, "interrupt_mode"@);
    }
}

proof fn lemma_rt_notebook_metadata(md: NotebookMetadataModel)
    ensures
        decode_notebook_metadata_model(encode_notebook_metadata_model(md)) == Ok::<
            NotebookMetadataModel,
            ErrorModel,
        >(
            NotebookMetadataModel {
                kernel_spec: md.kernel_spec,
                language_info: None,
                authors: md.authors,
            },
        ),
{
    reveal_strlit("kernelspec");
    reveal_strlit("language_info");
    reveal_strlit("authors");
    assert("kernelspec"@.len() == 10);
    assert("language_info"@.len() == 13);
    assert("authors"@.len() == 7);
    let o = encode_notebook_metadata_model(md)->Obj_0;
    let nl: int = if md.language_info is Some { 1int } else { 0int };
    assert(o.len() == 2 + nl);
    assert(o[0] == ("kernelspec"@, encode_kernel_spec_model(md.kernel_spec)));
    if md.language_info is Some {
        assert(o[1] == ("language_info"@, encode_language_info_model(md.language_info->0)));
    }
    assert(o[1 + nl] == ("authors"@, JsonModel::Arr(encode_authors(md.authors))));
    lemma_lookup_at(o, "kernelspec"@, 0);
    lemma_rt_kernel_spec(md.kernel_spec);
    lemma_lookup_at(o, "authors"@, 1 + nl);
    lemma_rt_authors(md.authors);
}

/// Round-trip: encoding any document and decoding the result yields the
/// same document on every field, except that `language_info` is reset to
/// no-value — decoding never populates it.
pub proof fn lemma_round_trip(nb: NotebookModel)
    ensures
        decode_notebook_model(encode_notebook_model(nb)) == Ok::<NotebookModel, ErrorModel>(
            NotebookModel {
                metadata: NotebookMetadataModel {
                    kernel_spec: nb.metadata.kernel_spec,
                    language_info: None,
                    authors: nb.metadata.authors,
                },
                cells: nb.cells,
                nbformat: nb.nbformat,
                nbformat_minor: nb.nbformat_minor,
            },
        ),
{
    reveal_strlit("metadata");
    reveal_strlit("cells");
    reveal_strlit("nbformat");
    reveal_strlit("nbformat_minor");
    assert("metadata"@.len() == 8);
    assert("cells"@.len() == 5);
    assert("nbformat"@.len() == 8);
    assert("nbformat_minor"@.len() == 14);
    assert("metadata"@[0] == 'm' && "nbformat"@[0] == 'n');
    let o = encode_notebook_model(nb)->Obj_0;
    assert(o[0].0 == "metadata"@);
    assert(o[1].0 == "cells"@);
    assert(o[2].0 == "nbformat"@);
    assert(o[3].0 == "nbformat_minor"@);
    lemma_lookup_at(o, "metadata"@, 0);
    lemma_lookup_at(o, "cells"@, 1);
    lemma_lookup_at(o, "nbformat"@, 2);
    lemma_lookup_at(o, "nbformat_minor"@, 3);
    lemma_rt_notebook_metadata(nb.metadata);
    lemma_rt_cells(nb.cells);
}

/// language_info isolation: whatever the input holds — even a well-formed
/// `language_info` object — decoded document metadata never carries one.
pub proof fn lemma_language_info_ignored(m: JsonModel)
    ensures
        decode_notebook_metadata_model(m) matches Ok(md) ==> md.language_info is None,
{
}

/// A decoded document never carries `language_info`.
pub proof fn lemma_decoded_language_info_none(m: JsonModel)
    ensures
        decode_notebook_model(m) matches Ok(d) ==> d.metadata.language_info is None,
{
}

/// Round-trip, stated on decoded documents: decoding a well-formed input,
/// encoding the result and decoding again yields the same document.
pub proof fn lemma_decode_encode_decode(m: JsonModel)
    requires
        decode_notebook_model(m) is Ok,
    ensures
        decode_notebook_model(encode_notebook_model(decode_notebook_model(m)->Ok_0))
            == decode_notebook_model(m),
{
    let d = decode_notebook_model(m)->Ok_0;
    lemma_decoded_language_info_none(m);
    lemma_round_trip(d);
}

/// Authors default: metadata lacking an `authors` member decodes to an
/// empty authors sequence, not a failure, whenever its `kernelspec`
/// decodes.
pub proof fn lemma_authors_default(m: JsonModel)
    requires
        m is Obj,
        obj_lookup(m->Obj_0, "authors"@) is None,
        obj_lookup(m->Obj_0, "kernelspec"@) matches Some(km)
            && decode_kernel_spec_model(km) is Ok,
    ensures
        decode_notebook_metadata_model(m) matches Ok(md) && md.authors
            == Seq::<Seq<char>>::empty(),
{
}

/// Optional-field omission, decode side: a kernel-spec object lacking
/// `argv`, `env` and `interrupt_mode` decodes successfully — its
/// `display_name` and `language` permitting — with all three resolving to
/// no-value.
pub proof fn lemma_optional_omission_decode(m: JsonModel)
    requires
        m is Obj,
        obj_lookup(m->Obj_0, "argv"@) is None,
        obj_lookup(m->Obj_0, "env"@) is None,
        obj_lookup(m->Obj_0, "interrupt_mode"@) is None,
        req_str_field(m->Obj_0, "display_name"@, FieldId::DisplayName) is Ok,
        req_str_field(m->Obj_0, "language"@, FieldId::Language) is Ok,
    ensures
        decode_kernel_spec_model(m) == Ok::<KernelSpecModel, ErrorModel>(
            KernelSpecModel {
                argv: None,
                display_name: req_str_field(m->Obj_0, "display_name"@, FieldId::DisplayName)->Ok_0,
                language: req_str_field(m->Obj_0, "language"@, FieldId::Language)->Ok_0,
                env: None,
                interrupt_mode: None,
            },
        ),
{
}

/// Optional-field omission, encode side: a kernel specification whose
/// `argv`, `env` and `interrupt_mode` are no-value encodes to an object
/// holding exactly `display_name` and `language`; the three keys are
/// absent, not null.
pub proof fn lemma_optional_omission_encode(ks: KernelSpecModel)
    requires
        ks.argv is None,
        ks.env is None,
        ks.interrupt_mode is None,
    ensures
        encode_kernel_spec_model(ks)->Obj_0 == seq![
            ("display_name"@, JsonModel::Str(ks.display_name)),
            ("language"@, JsonModel::Str(ks.language)),
        ],
        obj_lookup(encode_kernel_spec_model(ks)->Obj_0, "argv"@) is None,
        obj_lookup(encode_kernel_spec_model(ks)->Obj_0, "env"@) is None,
        obj_lookup(encode_kernel_spec_model(ks)->Obj_0, "interrupt_mode"@) is None,
{
    reveal_strlit("argv");
    reveal_strlit("display_name");
    reveal_strlit("language");
    reveal_strlit("env");
    reveal_strlit("interrupt_mode");
    assert("argv"@.len() == 4);
    assert("display_name"@.len() == 12);
    assert("language"@.len() == 8);
    assert("env"@.len() == 3);
    assert("interrupt_mode"@.len() == 14);
    let o = encode_kernel_spec_model(ks)->Obj_0;
    assert(o =~= seq![
        ("display_name"@, JsonModel::Str(ks.display_name)),
        ("language"@, JsonModel::Str(ks.language)),
    ]);
    assert forall|j: int| 0 <= j < o.len() implies o[j].0 != "argv"@ by {}
    crate::value::lemma_obj_lookup_absent(o, "argv"@);
    assert forall|j: int| 0 <= j < o.len() implies o[j].0 != "env"@ by {}
    crate::value::lemma_obj_lookup_absent(o, "env"@);
    assert forall|j: int| 0 <= j < o.len() implies o[j].0 != "interrupt_mode"@ by {}
    crate::value::lemma_obj_lookup_absent(o, "interrupt_mode"@);
}

} // verus!
