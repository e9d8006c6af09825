//! Reading the tensor list of a checkpoint buffer in the safetensors format:
//! inspecting it against the checkpoint contract, and collecting the
//! metadata of an all-`F32` checkpoint for loading.

use vstd::prelude::*;

use crate::config::ModelConfig;
use crate::error::{is_unsupported_dtype, Result, WeatherGraphError};
use crate::model::{
    clone_shape, config_dims_fit, inspect_weight_metadata, inspection_spec, key_views,
    metadata_keys, metadata_views, TensorMetadata, WeightInspectionReport,
};
use crate::text::{text_eq, texts_sorted};

verus! {

/// The tensors that the header of a safetensors buffer lists
/// (`SafeTensors::read_metadata`): for each name, its shape and the `Debug`
/// text of its element type (`F32`, `I64`, ...); `None` when the buffer does
/// not parse or validate.
pub uninterp spec fn safetensors_tensors(bytes: Seq<u8>) -> Option<
    Map<Seq<char>, (Seq<usize>, Seq<char>)>,
>;

/// A list of (name, shape, element type) triples in mathematical form.
pub open spec fn triple_views(v: Seq<(String, Vec<usize>, String)>) -> Seq<
    (Seq<char>, Seq<usize>, Seq<char>),
> {
    v.map_values(|t: (String, Vec<usize>, String)| (t.0@, t.1@, t.2@))
}

/// A tensor list as (name, shape, element type) triples.
pub open spec fn metadata_triples(meta: Seq<(String, TensorMetadata)>) -> Seq<
    (Seq<char>, Seq<usize>, Seq<char>),
> {
    meta.map_values(|p: (String, TensorMetadata)| (p.0@, p.1.shape@, p.1.dtype@))
}

/// `v` lists every tensor of `m` once, with its shape and element type.
pub open spec fn lists_tensors(
    v: Seq<(Seq<char>, Seq<usize>, Seq<char>)>,
    m: Map<Seq<char>, (Seq<usize>, Seq<char>)>,
) -> bool {
    &&& forall|i: int, j: int| 0 <= i < j < v.len() ==> v[i].0 != v[j].0
    &&& forall|i: int|
        0 <= i < v.len() ==> m.contains_key(#[trigger] v[i].0) && m[v[i].0] == (v[i].1, v[i].2)
    &&& forall|k: Seq<char>| #[trigger]
        m.contains_key(k) ==> exists|i: int| 0 <= i < v.len() && v[i].0 == k
}

/// `SafeTensors::read_metadata`, then `Metadata::offset_keys` and
/// `Metadata::info` for each key: the tensors of the header in storage
/// order, each with its shape and the `Debug` text of its element type. The
/// keys are those of the header's name index, a map, hence listed once; every
/// key has its info. Which error a failing buffer gives is not stated.
#[verifier::external_body]
fn read_checkpoint_tensors(bytes: &[u8]) -> (r: core::result::Result<
    Vec<(String, Vec<usize>, String)>,
    safetensors::SafeTensorError,
>)
    ensures
        r is Ok <==> safetensors_tensors(bytes@) is Some,
        r matches Ok(v) ==> lists_tensors(triple_views(v@), safetensors_tensors(bytes@)->0),
{
    let (_, header) = safetensors::SafeTensors::read_metadata(bytes)?;
    header.offset_keys().into_iter().map(|name| match header.info(&name) {
        Some(info) => Ok((name, info.shape.clone(), format!("{:?}", info.dtype))),
        None => Err(safetensors::SafeTensorError::TensorNotFound(name)),
    }).collect()
}

/// The tensor triples as a tensor list with the same names, shapes and
/// element types, in the same order.
fn triples_to_metadata(v: &Vec<(String, Vec<usize>, String)>) -> (r: Vec<(String, TensorMetadata)>)
    ensures
        metadata_triples(r@) == triple_views(v@),
{
    let mut r: Vec<(String, TensorMetadata)> = Vec::new();
    for i in 0..v.len()
        invariant
            metadata_triples(r@) == triple_views(v@).take(i as int),
    {
        let t = &v[i];
        let entry = (t.0.clone(), TensorMetadata { shape: clone_shape(&t.1), dtype: t.2.clone() });
        let ghost before = r@;
        r.push(entry);
        assert(metadata_triples(r@) =~= metadata_triples(before).push(
            (entry.0@, entry.1.shape@, entry.1.dtype@),
        ));
        assert(triple_views(v@).take(i + 1) =~= triple_views(v@).take(i as int).push(
            triple_views(v@)[i as int],
        ));
    }
    assert(triple_views(v@).take(v@.len() as int) =~= triple_views(v@));
    r
}

proof fn lemma_listed_keys_distinct(meta: Seq<(String, TensorMetadata)>, m: Map<Seq<char>, (Seq<usize>, Seq<char>)>)
    requires
        lists_tensors(metadata_triples(meta), m),
    ensures
        key_views(metadata_keys(meta)).no_duplicates(),
{
    let k = key_views(metadata_keys(meta));
    let t = metadata_triples(meta);
    assert forall|i: int, j: int| 0 <= i < k.len() && 0 <= j < k.len() && i != j implies k[i] != k[j] by {
        assert(k[i] == t[i].0 && k[j] == t[j].0);
        if i < j {
            assert(t[i].0 != t[j].0);
        } else {
            assert(t[j].0 != t[i].0);
        }
    }
}

/// The report of `inspect_weight_metadata` on a tensor list with distinct
/// keys.
pub open spec fn is_inspection_of(
    report: WeightInspectionReport,
    meta: Seq<(String, TensorMetadata)>,
    config: ModelConfig,
) -> bool {
    &&& key_views(metadata_keys(meta)).no_duplicates()
    &&& report.available_keys@.to_multiset() == metadata_keys(meta).to_multiset()
    &&& texts_sorted(key_views(report.available_keys@))
    &&& report@ == inspection_spec(metadata_views(meta), config, key_views(report.available_keys@))
}

/// Inspects a checkpoint buffer in the safetensors format: the tensors its
/// header lists, with their shapes and element types, are checked against
/// the contract as `inspect_weight_metadata` does. A buffer whose header does
/// not parse or validate is reported as a `SafeTensors` error.
pub fn inspect_safetensors_bytes(bytes: &[u8], config: &ModelConfig) -> (r: Result<
    WeightInspectionReport,
>)
    requires
        config_dims_fit(*config),
    ensures
        r is Ok <==> safetensors_tensors(bytes@) is Some,
        r matches Ok(report) ==> exists|meta: Seq<(String, TensorMetadata)>|
            lists_tensors(metadata_triples(meta), safetensors_tensors(bytes@)->0)
                && #[trigger] is_inspection_of(report, meta, *config),
        r matches Err(e) ==> e is SafeTensors,
{
    let tensors = match read_checkpoint_tensors(bytes) {
        Ok(t) => t,
        Err(e) => {
            return Err(WeatherGraphError::SafeTensors(e));
        },
    };
    let metadata = triples_to_metadata(&tensors);
    proof {
        lemma_listed_keys_distinct(metadata@, safetensors_tensors(bytes@)->0);
    }
    let report = inspect_weight_metadata(&metadata, config);
    let ghost witness = metadata@;
    let r: Result<WeightInspectionReport> = Ok(report);
    assert(is_inspection_of(r->Ok_0, witness, *config));
    r
}

/// Every tensor of the header has the element type `F32`.
pub open spec fn all_f32(m: Map<Seq<char>, (Seq<usize>, Seq<char>)>) -> bool {
    forall|k: Seq<char>| #[trigger] m.contains_key(k) ==> m[k].1 == "F32"@
}

/// The tensor list of a checkpoint to load: every tensor of the header with
/// its shape and the element type `F32`. A header that does not parse is a
/// `SafeTensors` error; a tensor of another element type is refused as
/// unsupported, naming the tensor and the `Debug` text of its type.
pub fn checkpoint_f32_metadata(bytes: &[u8]) -> (r: Result<Vec<(String, TensorMetadata)>>)
    ensures
        r is Ok <==> (safetensors_tensors(bytes@) matches Some(m) && all_f32(m)),
        r matches Ok(meta) ==> lists_tensors(
            metadata_triples(meta@),
            safetensors_tensors(bytes@)->0,
        ),
        r matches Ok(meta) ==> key_views(metadata_keys(meta@)).no_duplicates(),
        safetensors_tensors(bytes@) is None ==> (r matches Err(e) && e is SafeTensors),
        r matches Err(e) ==> (safetensors_tensors(bytes@) is Some ==> exists|k: Seq<char>|
            #[trigger] safetensors_tensors(bytes@)->0.contains_key(k) && safetensors_tensors(
                bytes@,
            )->0[k].1 != "F32"@ && is_unsupported_dtype(e, k, safetensors_tensors(bytes@)->0[k].1)),
{
    let tensors = match read_checkpoint_tensors(bytes) {
        Ok(t) => t,
        Err(e) => {
            return Err(WeatherGraphError::SafeTensors(e));
        },
    };
    let ghost m = safetensors_tensors(bytes@)->0;
    let ghost tv = triple_views(tensors@);
    for i in 0..tensors.len()
        invariant
            safetensors_tensors(bytes@) is Some,
            m == safetensors_tensors(bytes@)->0,
            tv == triple_views(tensors@),
            lists_tensors(tv, m),
            forall|j: int| 0 <= j < i ==> (#[trigger] tv[j]).2 == "F32"@,
    {
        assert(tv[i as int] == (tensors@[i as int].0@, tensors@[i as int].1@, tensors@[i as int].2@));
        if !text_eq(tensors[i].2.as_str(), "F32") {
            let e = WeatherGraphError::UnsupportedDtype {
                name: tensors[i].0.clone(),
                dtype: tensors[i].2.clone(),
            };
            assert(m.contains_key(tv[i as int].0));
            assert(!all_f32(m));
            return Err(e);
        }
    }
    assert forall|k: Seq<char>| #[trigger] m.contains_key(k) implies m[k].1 == "F32"@ by {
        let i = choose|i: int| 0 <= i < tv.len() && tv[i].0 == k;
        assert(tv[i].2 == "F32"@);
    }
    let metadata = triples_to_metadata(&tensors);
    proof {
        lemma_listed_keys_distinct(metadata@, m);
    }
    Ok(metadata)
}

} // verus!
