//! The pod as the engine sees it: an opaque document of which only the label
//! keys are read and to which one annotation is written.

use crate::text::views;
use vstd::prelude::*;

verus! {

/// `k8s_openapi`'s pod, carried through as an opaque value.
#[verifier::external_type_specification]
#[verifier::external_body]
pub struct ExPod(k8s_openapi::api::core::v1::Pod);

/// `serde_json`'s document, carried through as an opaque value.
#[verifier::external_type_specification]
#[verifier::external_body]
pub struct ExValue(serde_json::Value);

/// `serde_json`'s error, carried through as an opaque value.
#[verifier::external_type_specification]
#[verifier::external_body]
pub struct ExJsonError(serde_json::Error);

/// Whether the pod's metadata carries a label map at all, even an empty one.
pub uninterp spec fn pod_has_labels(pod: k8s_openapi::api::core::v1::Pod) -> bool;

/// The keys of the pod's label map in the order in which the map holds them;
/// empty where the pod carries no label map.
pub uninterp spec fn pod_label_keys(pod: k8s_openapi::api::core::v1::Pod) -> Seq<Seq<char>>;

/// The pod's annotations; the empty map where the pod carries none.
pub uninterp spec fn pod_annotations(pod: k8s_openapi::api::core::v1::Pod) -> Map<
    Seq<char>,
    Seq<char>,
>;

/// The pod that a document describes, where it describes one.
pub uninterp spec fn parsed_pod(object: serde_json::Value) -> Option<
    k8s_openapi::api::core::v1::Pod,
>;

/// The document that describes a pod, where the pod can be written as one.
pub uninterp spec fn pod_document(pod: k8s_openapi::api::core::v1::Pod) -> Option<
    serde_json::Value,
>;

/// The pod with `value` stored under `key` among its annotations and nothing
/// else changed.
pub uninterp spec fn pod_with_annotation(
    pod: k8s_openapi::api::core::v1::Pod,
    key: Seq<char>,
    value: Seq<char>,
) -> k8s_openapi::api::core::v1::Pod;

/// Calls `serde_json::from_value::<Pod>`: the document taken as a pod, or the
/// reason why it is none. The outcome depends on the document alone.
#[verifier::external_body]
pub(crate) fn parse_pod(object: serde_json::Value) -> (parsed: Result<
    k8s_openapi::api::core::v1::Pod,
    serde_json::Error,
>)
    ensures
        parsed is Ok <==> parsed_pod(object) is Some,
        parsed is Ok ==> parsed_pod(object) == Some(parsed->Ok_0),
{
    serde_json::from_value::<k8s_openapi::api::core::v1::Pod>(object)
}

/// Calls `serde_json::to_value` on a pod: the pod as a document, or the reason
/// why it cannot be written as one. The outcome depends on the pod alone.
#[verifier::external_body]
pub(crate) fn pod_to_value(pod: k8s_openapi::api::core::v1::Pod) -> (written: Result<
    serde_json::Value,
    serde_json::Error,
>)
    ensures
        written is Ok <==> pod_document(pod) is Some,
        written is Ok ==> pod_document(pod) == Some(written->Ok_0),
{
    serde_json::to_value(pod)
}

/// Reads `Pod::metadata.labels` and hands out the keys of that `BTreeMap` by
/// `BTreeMap::keys`: `None` exactly where the pod has no label map, else the
/// keys as the map holds them, none of them twice.
#[verifier::external_body]
pub(crate) fn label_keys(pod: &k8s_openapi::api::core::v1::Pod) -> (keys: Option<Vec<String>>)
    ensures
        keys is Some <==> pod_has_labels(*pod),
        keys is Some ==> views(keys->Some_0@) == pod_label_keys(*pod),
        keys is Some ==> views(keys->Some_0@).no_duplicates(),
{
    pod.metadata.labels.as_ref().map(|labels| labels.keys().cloned().collect())
}

/// Writes `Pod::metadata.annotations`: the pod with `value` stored under `key`
/// by `BTreeMap::insert`, in the map it had or in a new one. The labels and
/// every other annotation stay as they were.
#[verifier::external_body]
pub(crate) fn annotate(
    pod: k8s_openapi::api::core::v1::Pod,
    key: &str,
    value: &str,
) -> (annotated: k8s_openapi::api::core::v1::Pod)
    ensures
        annotated == pod_with_annotation(pod, key@, value@),
        pod_annotations(annotated) == pod_annotations(pod).insert(key@, value@),
        pod_has_labels(annotated) == pod_has_labels(pod),
        pod_label_keys(annotated) == pod_label_keys(pod),
{
    let mut pod = pod;
    let mut annotations = pod.metadata.annotations.take().unwrap_or_default();
    annotations.insert(key.to_string(), value.to_string());
    pod.metadata.annotations = Some(annotations);
    pod
}

} // verus!
