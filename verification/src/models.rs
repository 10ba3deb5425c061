//! The model listing: which files of the models directory are models, what is
//! reported of each, and in which order.

use vstd::prelude::*;
use vstd::utf8::*;
use crate::dto::{ModelInfo, ModelsResponse};
use crate::state::{apply_event, RuntimeEvent, RuntimeView};
use crate::text::{bytes_le, bytes_le_exec, lemma_bytes_le_total, lemma_bytes_le_transitive};

verus! {

/// What is known of one entry of the models directory.
pub struct DirEntryInfo {
    /// The entry's file name, as raw bytes.
    pub file_name: Vec<u8>,
    /// The entry's full path, as text.
    pub path: String,
    /// Whether the entry is a regular file (following links).
    pub is_file: bool,
}

/// The bytes of `.gguf`.
pub open spec fn gguf_suffix() -> Seq<u8> {
    seq![46u8, 103u8, 103u8, 117u8, 102u8]
}

/// The file name's extension is `gguf`: it ends in `.gguf` with something
/// before the dot (a name that is only `.gguf` has no extension).
pub open spec fn has_gguf_extension(name: Seq<u8>) -> bool {
    name.len() > 5 && name.subrange(name.len() - 5, name.len() as int) == gguf_suffix()
}

/// The entry is listed as a model: a regular file with the `gguf` extension.
pub open spec fn is_model_entry(e: DirEntryInfo) -> bool {
    e.is_file && has_gguf_extension(e.file_name@)
}

/// The name shown for a file name: its text, or empty when it is not UTF-8.
pub open spec fn display_name(name: Seq<u8>) -> Seq<char> {
    if valid_utf8(name) {
        decode_utf8(name)
    } else {
        Seq::empty()
    }
}

/// What a listed model is reported as: name, path, and whether it is the
/// current model.
pub open spec fn model_view(m: ModelInfo) -> (Seq<char>, Seq<char>, bool) {
    (m.name@, m.path@, m.loaded)
}

/// The reports of a sequence of listed models.
pub open spec fn models_view(s: Seq<ModelInfo>) -> Seq<(Seq<char>, Seq<char>, bool)> {
    s.map_values(|m: ModelInfo| model_view(m))
}

/// The report of a model entry, given the current model.
pub open spec fn entry_report(e: DirEntryInfo, current: Option<Seq<char>>) -> (
    Seq<char>,
    Seq<char>,
    bool,
) {
    let name = display_name(e.file_name@);
    (name, e.path@, current == Some(name))
}

/// The reports of the model entries among `entries`, in directory order.
pub open spec fn entry_reports(entries: Seq<DirEntryInfo>, current: Option<Seq<char>>) -> Seq<
    (Seq<char>, Seq<char>, bool),
>
    decreases entries.len(),
{
    if entries.len() == 0 {
        Seq::empty()
    } else {
        let rest = entry_reports(entries.drop_last(), current);
        if is_model_entry(entries.last()) {
            rest.push(entry_report(entries.last(), current))
        } else {
            rest
        }
    }
}

/// The key models are ordered by: the bytes of the name.
pub open spec fn report_key(t: (Seq<char>, Seq<char>, bool)) -> Seq<u8> {
    encode_utf8(t.0)
}

/// `out` is `input` sorted by name, byte by byte, with reports of equal name
/// kept in their input order; `idx` tells where each report of `out` stands in
/// `input`.
pub open spec fn stable_sorted_by(
    out: Seq<(Seq<char>, Seq<char>, bool)>,
    input: Seq<(Seq<char>, Seq<char>, bool)>,
    idx: Seq<int>,
) -> bool {
    &&& out.len() == input.len()
    &&& idx.len() == input.len()
    &&& forall|k: int|
        0 <= k < out.len() ==> 0 <= #[trigger] idx[k] < input.len() && out[k] == input[idx[k]]
    &&& forall|i: int, j: int| 0 <= i < j < out.len() ==> #[trigger] idx[i] != #[trigger] idx[j]
    &&& forall|i: int, j: int|
        0 <= i < j < out.len() ==> bytes_le(
            #[trigger] report_key(out[i]),
            #[trigger] report_key(out[j]),
        )
    &&& forall|i: int, j: int|
        0 <= i < j < out.len() && report_key(out[i]) == report_key(out[j]) ==> #[trigger] idx[i]
            < #[trigger] idx[j]
}

/// `out` is the stable sort of `input` by name.
pub open spec fn is_stable_sort_of(
    out: Seq<(Seq<char>, Seq<char>, bool)>,
    input: Seq<(Seq<char>, Seq<char>, bool)>,
) -> bool {
    exists|idx: Seq<int>| stable_sorted_by(out, input, idx)
}

/// std's `String::from_utf8`: the bytes as a string when they are valid
/// UTF-8. Claimed: it succeeds exactly on valid UTF-8, and the string it
/// gives holds exactly those bytes.
#[verifier::external_body]
fn utf8_to_string(bytes: Vec<u8>) -> (r: Option<String>)
    ensures
        r is Some <==> valid_utf8(bytes@),
        r matches Some(s) ==> encode_utf8(s@) == bytes@,
{
    String::from_utf8(bytes).ok()
}

fn ends_with_gguf(name: &Vec<u8>) -> (r: bool)
    ensures
        r == has_gguf_extension(name@),
{
    let n = name.len();
    if n <= 5 {
        return false;
    }
    let r = name[n - 5] == 46 && name[n - 4] == 103 && name[n - 3] == 103 && name[n - 2] == 117
        && name[n - 1] == 102;
    assert(r == (name@.subrange(n - 5, n as int) =~= gguf_suffix()));
    r
}

fn optional_text_eq(o: &Option<String>, s: &String) -> (r: bool)
    ensures
        r == (o.deep_view() == Some(s@)),
{
    match o {
        Some(c) => *c == *s,
        None => false,
    }
}

/// The models, ordered by name, those of equal name in the order they came.
fn sort_by_name(v: Vec<ModelInfo>) -> (r: Vec<ModelInfo>)
    ensures
        is_stable_sort_of(models_view(r@), models_view(v@)),
{
    let ghost vv = models_view(v@);
    let mut rest = v;
    let mut out: Vec<ModelInfo> = Vec::new();
    let ghost mut idx: Seq<int> = Seq::empty();
    proof {
        assert(models_view(rest@) =~= vv.subrange(0, rest@.len() as int));
    }
    while rest.len() > 0
        invariant
            vv.len() == out@.len() + rest@.len(),
            models_view(rest@) =~= vv.subrange(0, rest@.len() as int),
            idx.len() == out@.len(),
            forall|k: int|
                0 <= k < out@.len() ==> rest@.len() <= #[trigger] idx[k] < vv.len()
                    && models_view(out@)[k] == vv[idx[k]],
            forall|i: int, j: int| 0 <= i < j < out@.len() ==> #[trigger] idx[i] != #[trigger] idx[j],
            forall|i: int, j: int|
                0 <= i < j < out@.len() ==> bytes_le(
                    #[trigger] report_key(models_view(out@)[i]),
                    #[trigger] report_key(models_view(out@)[j]),
                ),
            forall|i: int, j: int|
                0 <= i < j < out@.len() && report_key(models_view(out@)[i]) == report_key(
                    models_view(out@)[j],
                ) ==> #[trigger] idx[i] < #[trigger] idx[j],
        decreases rest.len(),
    {
        let ghost before_rest = rest@;
        let x = rest.pop().unwrap();
        let ghost r = rest@.len() as int;
        let ghost xv = model_view(x);
        proof {
            assert(before_rest =~= rest@.push(x));
            assert(models_view(before_rest)[r] == xv);
            assert(vv.subrange(0, r + 1)[r] == vv[r]);
            assert(vv[r] == xv);
            assert(models_view(rest@) =~= vv.subrange(0, r));
        }
        let mut p: usize = 0;
        while p < out.len()
            invariant
                p <= out@.len(),
                forall|j: int|
                    0 <= j < p ==> !bytes_le(report_key(xv), #[trigger] report_key(models_view(out@)[j])),
                xv == model_view(x),
            ensures
                p <= out@.len(),
                forall|j: int|
                    0 <= j < p ==> !bytes_le(report_key(xv), #[trigger] report_key(models_view(out@)[j])),
                p < out@.len() ==> bytes_le(report_key(xv), report_key(models_view(out@)[p as int])),
            decreases out@.len() - p,
        {
            if bytes_le_exec(x.name.as_str().as_bytes(), out[p].name.as_str().as_bytes()) {
                break;
            }
            p = p + 1;
        }
        let ghost ov = models_view(out@);
        let ghost old_idx = idx;
        out.insert(p, x);
        proof {
            idx = old_idx.insert(p as int, r);
            let nv = models_view(out@);
            assert(nv =~= ov.insert(p as int, xv));
            assert forall|k: int| 0 <= k < out@.len() implies rest@.len() <= #[trigger] idx[k]
                < vv.len() && nv[k] == vv[idx[k]] by {
                if k < p {
                    assert(idx[k] == old_idx[k]);
                } else if k > p {
                    assert(idx[k] == old_idx[k - 1]);
                }
            }
            assert forall|i: int, j: int| 0 <= i < j < out@.len() implies #[trigger] idx[i]
                != #[trigger] idx[j] by {
                if i < p && j < p {
                    assert(idx[i] == old_idx[i] && idx[j] == old_idx[j]);
                } else if i < p && j > p {
                    assert(idx[i] == old_idx[i] && idx[j] == old_idx[j - 1]);
                } else if i > p && j > p {
                    assert(idx[i] == old_idx[i - 1] && idx[j] == old_idx[j - 1]);
                } else if i == p {
                    assert(idx[j] == old_idx[j - 1]);
                } else {
                    assert(idx[i] == old_idx[i]);
                }
            }
            assert forall|j: int| 0 <= j < p implies bytes_le(
                #[trigger] report_key(ov[j]),
                report_key(xv),
            ) by {
                lemma_bytes_le_total(report_key(xv), report_key(ov[j]));
            }
            assert forall|i: int, j: int| 0 <= i < j < out@.len() implies bytes_le(
                #[trigger] report_key(nv[i]),
                #[trigger] report_key(nv[j]),
            ) by {
                if j < p {
                    assert(nv[i] == ov[i] && nv[j] == ov[j]);
                } else if j == p {
                    assert(nv[i] == ov[i]);
                } else if i == p {
                    assert(nv[j] == ov[j - 1]);
                    if j - 1 > p {
                        lemma_bytes_le_transitive(
                            report_key(xv),
                            report_key(ov[p as int]),
                            report_key(ov[j - 1]),
                        );
                    }
                } else if i < p {
                    assert(nv[i] == ov[i] && nv[j] == ov[j - 1]);
                } else {
                    assert(nv[i] == ov[i - 1] && nv[j] == ov[j - 1]);
                }
            }
            assert forall|i: int, j: int|
                0 <= i < j < out@.len() && report_key(nv[i]) == report_key(
                    nv[j],
                ) implies #[trigger] idx[i] < #[trigger] idx[j] by {
                if i < p && j < p {
                    assert(idx[i] == old_idx[i] && idx[j] == old_idx[j]);
                    assert(nv[i] == ov[i] && nv[j] == ov[j]);
                } else if i < p && j == p {
                    assert(nv[i] == ov[i]);
                    lemma_bytes_le_total(report_key(xv), report_key(xv));
                } else if i < p && j > p {
                    assert(idx[i] == old_idx[i] && idx[j] == old_idx[j - 1]);
                    assert(nv[i] == ov[i] && nv[j] == ov[j - 1]);
                } else if i == p {
                    assert(idx[j] == old_idx[j - 1]);
                } else {
                    assert(idx[i] == old_idx[i - 1] && idx[j] == old_idx[j - 1]);
                    assert(nv[i] == ov[i - 1] && nv[j] == ov[j - 1]);
                }
            }
        }
    }
    proof {
        assert(vv.subrange(0, 0).len() == 0);
        assert(stable_sorted_by(models_view(out@), vv, idx));
    }
    out
}

fn display_name_of(bytes: &Vec<u8>) -> (r: String)
    ensures
        r@ == display_name(bytes@),
{
    match utf8_to_string(bytes.clone()) {
        Some(s) => {
            proof {
                encode_utf8_decode_utf8(s@);
            }
            s
        },
        None => String::new(),
    }
}

/// The answer of the models endpoint: one report per regular `.gguf` file of
/// the directory (its name, its path, and whether it is the current model),
/// ordered by name; and the current and last working model.
pub fn list_models(
    entries: &Vec<DirEntryInfo>,
    current_model: Option<String>,
    last_working_model: Option<String>,
) -> (r: ModelsResponse)
    ensures
        is_stable_sort_of(models_view(r.models@), entry_reports(entries@, current_model.deep_view())),
        r.current_model == current_model,
        r.last_working_model == last_working_model,
{
    let mut items: Vec<ModelInfo> = Vec::new();
    let mut i: usize = 0;
    while i < entries.len()
        invariant
            i <= entries@.len(),
            models_view(items@) =~= entry_reports(entries@.take(i as int), current_model.deep_view()),
        decreases entries@.len() - i,
    {
        let e = &entries[i];
        let ghost before = items@;
        if e.is_file && ends_with_gguf(&e.file_name) {
            let name = display_name_of(&e.file_name);
            let loaded = optional_text_eq(&current_model, &name);
            items.push(ModelInfo { name, path: e.path.clone(), loaded });
            proof {
                assert(models_view(items@) =~= models_view(before).push(model_view(items@.last())));
            }
        }
        proof {
            assert(entries@.take(i + 1).drop_last() =~= entries@.take(i as int));
            assert(entries@.take(i + 1).last() == entries@[i as int]);
        }
        i = i + 1;
    }
    proof {
        assert(entries@.take(entries@.len() as int) =~= entries@);
    }
    let models = sort_by_name(items);
    ModelsResponse { models, current_model, last_working_model }
}

proof fn lemma_entry_reports_loaded_flag(entries: Seq<DirEntryInfo>, current: Option<Seq<char>>)
    ensures
        forall|k: int|
            0 <= k < entry_reports(entries, current).len() ==> (#[trigger] entry_reports(
                entries,
                current,
            )[k]).2 == (current == Some(entry_reports(entries, current)[k].0)),
    decreases entries.len(),
{
    if entries.len() > 0 {
        let d = entries.drop_last();
        lemma_entry_reports_loaded_flag(d, current);
        let er = entry_reports(entries, current);
        let rest = entry_reports(d, current);
        assert forall|k: int| 0 <= k < er.len() implies (#[trigger] er[k]).2 == (current == Some(
            er[k].0,
        )) by {
            if k < rest.len() {
                assert(er[k] == rest[k]);
            }
        }
    }
}

proof fn lemma_entry_reports_include(
    entries: Seq<DirEntryInfo>,
    current: Option<Seq<char>>,
    i: int,
)
    requires
        0 <= i < entries.len(),
        is_model_entry(entries[i]),
    ensures
        exists|k: int|
            0 <= k < entry_reports(entries, current).len() && #[trigger] entry_reports(
                entries,
                current,
            )[k] == entry_report(entries[i], current),
    decreases entries.len(),
{
    let d = entries.drop_last();
    let er = entry_reports(entries, current);
    if i == entries.len() - 1 {
        assert(er[er.len() - 1] == entry_report(entries[i], current));
    } else {
        assert(d[i] == entries[i]);
        lemma_entry_reports_include(d, current, i);
        let k = choose|k: int|
            0 <= k < entry_reports(d, current).len() && #[trigger] entry_reports(d, current)[k]
                == entry_report(d[i], current);
        assert(er[k] == entry_reports(d, current)[k]);
    }
}

/// After a successful load of `m`, the model listing marks exactly the models
/// named `m` as loaded, and there is one when the directory holds a model
/// file named `m`; the load leaves `m` both current and last working.
pub proof fn lemma_listing_after_successful_load<C>(
    s: RuntimeView<C>,
    child: C,
    m: Seq<char>,
    entries: Seq<DirEntryInfo>,
    listing: Seq<(Seq<char>, Seq<char>, bool)>,
)
    requires
        is_stable_sort_of(
            listing,
            entry_reports(entries, apply_event(s, RuntimeEvent::LoadHealthy(child, m)).current_model),
        ),
    ensures
        apply_event(s, RuntimeEvent::LoadHealthy(child, m)).current_model == Some(m),
        apply_event(s, RuntimeEvent::LoadHealthy(child, m)).last_working_model == Some(m),
        forall|k: int| 0 <= k < listing.len() ==> ((#[trigger] listing[k]).2 <==> listing[k].0 == m),
        (exists|i: int|
            0 <= i < entries.len() && is_model_entry(#[trigger] entries[i]) && display_name(
                entries[i].file_name@,
            ) == m) ==> exists|k: int| 0 <= k < listing.len() && (#[trigger] listing[k]).2,
{
    let cur = Some(m);
    let er = entry_reports(entries, cur);
    lemma_entry_reports_loaded_flag(entries, cur);
    let idx = choose|idx: Seq<int>| stable_sorted_by(listing, er, idx);
    assert forall|k: int| 0 <= k < listing.len() implies ((#[trigger] listing[k]).2 <==> listing[k].0
        == m) by {
        assert(listing[k] == er[idx[k]]);
    }
    if exists|i: int|
        0 <= i < entries.len() && is_model_entry(#[trigger] entries[i]) && display_name(
            entries[i].file_name@,
        ) == m {
        let i = choose|i: int|
            0 <= i < entries.len() && is_model_entry(#[trigger] entries[i]) && display_name(
                entries[i].file_name@,
            ) == m;
        lemma_entry_reports_include(entries, cur, i);
        let j = choose|j: int| 0 <= j < er.len() && #[trigger] er[j] == entry_report(entries[i], cur);
        assert(er[j].2);
        // `idx` is a one-to-one map of `listing` into `er`, both of one length,
        // so some position of `listing` holds `er[j]`.
        lemma_index_map_onto(idx, er.len() as int, j);
        let k = choose|k: int| 0 <= k < idx.len() && idx[k] == j;
        assert(listing[k] == er[j]);
    }
}

/// A one-to-one map from `0..n` into `0..n` reaches every value.
proof fn lemma_index_map_onto(idx: Seq<int>, n: int, j: int)
    requires
        idx.len() == n,
        0 <= j < n,
        forall|k: int| 0 <= k < n ==> 0 <= #[trigger] idx[k] < n,
        forall|a: int, b: int| 0 <= a < b < n ==> #[trigger] idx[a] != #[trigger] idx[b],
    ensures
        exists|k: int| 0 <= k < n && idx[k] == j,
{
    if !(exists|k: int| 0 <= k < n && idx[k] == j) {
        // Then `idx` maps `0..n` one-to-one into the `n - 1` values other than `j`.
        let vals = idx.to_set();
        let range = Set::new(|v: int| 0 <= v < n && v != j);
        assert(vals.subset_of(range)) by {
            assert forall|v: int| vals.contains(v) implies range.contains(v) by {
                let k = choose|k: int| 0 <= k < idx.len() && idx[k] == v;
            }
        }
        assert(idx.no_duplicates()) by {
            assert forall|a: int, b: int| 0 <= a < idx.len() && 0 <= b < idx.len() && a != b implies idx[a]
                != idx[b] by {
                if a < b {
                } else {
                }
            }
        }
        idx.unique_seq_to_set();
        assert(range =~= vstd::set_lib::set_int_range(0, n).remove(j));
        vstd::set_lib::lemma_int_range(0, n);
        vstd::set_lib::lemma_len_subset(vals, range);
    }
}

/// A listing is ordered by the whole name: the UTF-8 bytes of each reported
/// name sort no later than those of every name after it, and reports of the
/// same name keep their directory order.
pub proof fn lemma_listing_sorted_by_whole_name(
    out: Seq<(Seq<char>, Seq<char>, bool)>,
    input: Seq<(Seq<char>, Seq<char>, bool)>,
)
    requires
        is_stable_sort_of(out, input),
    ensures
        out.len() == input.len(),
        forall|i: int, j: int|
            0 <= i < j < out.len() ==> bytes_le(
                encode_utf8(#[trigger] out[i].0),
                encode_utf8(#[trigger] out[j].0),
            ),
        exists|idx: Seq<int>|
            {
                &&& idx.len() == out.len()
                &&& forall|k: int|
                    0 <= k < out.len() ==> 0 <= #[trigger] idx[k] < input.len() && out[k]
                        == input[idx[k]]
                &&& forall|i: int, j: int|
                    0 <= i < j < out.len() && out[i].0 == out[j].0 ==> #[trigger] idx[i]
                        < #[trigger] idx[j]
            },
{
    let idx = choose|idx: Seq<int>| stable_sorted_by(out, input, idx);
    assert forall|i: int, j: int| 0 <= i < j < out.len() implies bytes_le(
        encode_utf8(#[trigger] out[i].0),
        encode_utf8(#[trigger] out[j].0),
    ) by {
        assert(bytes_le(report_key(out[i]), report_key(out[j])));
    }
    assert forall|i: int, j: int|
        0 <= i < j < out.len() && out[i].0 == out[j].0 implies #[trigger] idx[i] < #[trigger] idx[j] by {
        assert(report_key(out[i]) == report_key(out[j]));
    }
}

/// The reports of a listing come exactly from the regular files whose name is
/// some text followed by `.gguf` (bytes `2E 67 67 75 66`): every report is
/// the report of such an entry, and every such entry has its report.
pub proof fn lemma_reports_come_from_gguf_files(
    entries: Seq<DirEntryInfo>,
    current: Option<Seq<char>>,
)
    ensures
        forall|i: int|
            0 <= i < entries.len() ==> (is_model_entry(#[trigger] entries[i]) <==> {
                let n = entries[i].file_name@;
                &&& entries[i].is_file
                &&& n.len() > 5
                &&& n[n.len() - 5] == 0x2E && n[n.len() - 4] == 0x67 && n[n.len() - 3] == 0x67
                &&& n[n.len() - 2] == 0x75 && n[n.len() - 1] == 0x66
            }),
        forall|k: int|
            #![trigger entry_reports(entries, current)[k]]
            0 <= k < entry_reports(entries, current).len() ==> exists|i: int|
                0 <= i < entries.len() && is_model_entry(#[trigger] entries[i])
                    && entry_reports(entries, current)[k] == entry_report(entries[i], current),
        forall|i: int|
            0 <= i < entries.len() && is_model_entry(#[trigger] entries[i]) ==> exists|k: int|
                0 <= k < entry_reports(entries, current).len() && entry_reports(entries, current)[k]
                    == entry_report(entries[i], current),
    decreases entries.len(),
{
    assert forall|i: int| 0 <= i < entries.len() implies (is_model_entry(#[trigger] entries[i]) <==> {
        let n = entries[i].file_name@;
        &&& entries[i].is_file
        &&& n.len() > 5
        &&& n[n.len() - 5] == 0x2E && n[n.len() - 4] == 0x67 && n[n.len() - 3] == 0x67
        &&& n[n.len() - 2] == 0x75 && n[n.len() - 1] == 0x66
    }) by {
        let n = entries[i].file_name@;
        if n.len() > 5 {
            let t = n.subrange(n.len() - 5, n.len() as int);
            assert(t[0] == n[n.len() - 5] && t[1] == n[n.len() - 4] && t[2] == n[n.len() - 3]);
            assert(t[3] == n[n.len() - 2] && t[4] == n[n.len() - 1]);
            if t =~= gguf_suffix() {
            }
        }
    }
    assert forall|i: int| 0 <= i < entries.len() && is_model_entry(#[trigger] entries[i]) implies exists|
        k: int,
    |
        0 <= k < entry_reports(entries, current).len() && entry_reports(entries, current)[k]
            == entry_report(entries[i], current) by {
        lemma_entry_reports_include(entries, current, i);
    }
    if entries.len() > 0 {
        let d = entries.drop_last();
        lemma_reports_come_from_gguf_files(d, current);
        let er = entry_reports(entries, current);
        let rest = entry_reports(d, current);
        assert forall|k: int| #![trigger er[k]] 0 <= k < er.len() implies exists|i: int|
            0 <= i < entries.len() && is_model_entry(#[trigger] entries[i]) && er[k] == entry_report(
                entries[i],
                current,
            ) by {
            if k < rest.len() {
                assert(er[k] == rest[k]);
                let i = choose|i: int|
                    0 <= i < d.len() && is_model_entry(#[trigger] d[i]) && rest[k] == entry_report(
                        d[i],
                        current,
                    );
                assert(entries[i] == d[i]);
            } else {
                assert(entries[entries.len() - 1] == entries.last());
            }
        }
    }
}

} // verus!
