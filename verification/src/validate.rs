//! The decision engine: what becomes of a submitted object under given
//! settings.

use crate::pod::{
    annotate, label_keys, parse_pod, parsed_pod, pod_annotations, pod_document, pod_has_labels,
    pod_label_keys, pod_to_value, pod_with_annotation,
};
use crate::response::{
    accept_response, mutate_response, mutation_encoding, reject_response, rejection_encoding,
    ResponseError,
};
use crate::settings::{is_match, is_palindrome, Settings};
use crate::text::{
    decimal, decimal_nat, join, joined, lemma_filter_of_distinct, lemma_filter_take_next,
    signed_to_string, unsigned_to_string, views,
};
use vstd::prelude::*;
use vstd::string::StringExecFns;

verus! {

/// The annotation under which an accepted pod carries its palindrome count.
pub const COUNT_ANNOTATION: &'static str = "kubewarden.policy.palindromes/count";

/// The submitted object, read as a pod where it is one.
#[derive(Debug)]
pub enum ParsedObject {
    /// The object is a pod.
    Recognized(k8s_openapi::api::core::v1::Pod),
    /// The object is of a kind that this policy does not evaluate.
    Unrecognized,
}

/// What the engine decides on a request.
#[derive(Debug)]
pub enum Decision {
    /// The object passes as it is.
    Accepted,
    /// The object passes and is replaced by the pod carried here.
    AcceptedWithPatch(k8s_openapi::api::core::v1::Pod),
    /// The object is refused for the reason carried here.
    Rejected(String),
}

/// How a label is shown when it is quoted in a message: the text that the
/// `Debug` form of a string gives.
pub uninterp spec fn debug_quoted(label: Seq<char>) -> Seq<char>;

/// Calls the `Debug` formatter of `str`: the label between double quotes, with
/// what the formatter escapes written as escapes.
#[verifier::external_body]
pub(crate) fn quote(label: &str) -> (quoted: String)
    ensures
        quoted@ == debug_quoted(label@),
{
    format!("{:?}", label)
}

/// The labels among `keys` that are palindromes, in the order of `keys`.
pub open spec fn matching(keys: Seq<Seq<char>>) -> Seq<Seq<char>> {
    keys.filter(|label: Seq<char>| is_match(label))
}

/// The labels among `labels` that `whitelist` does not hold, in the order of
/// `labels`.
pub open spec fn outside(labels: Seq<Seq<char>>, whitelist: Set<Seq<char>>) -> Seq<Seq<char>> {
    labels.filter(|label: Seq<char>| !whitelist.contains(label))
}

/// The palindromes among `keys` that the whitelist does not exempt.
pub open spec fn non_whitelisted(keys: Seq<Seq<char>>, whitelist: Set<Seq<char>>) -> Seq<
    Seq<char>,
> {
    outside(matching(keys), whitelist)
}

/// The labels as a bracketed list, each quoted, with a comma and a space
/// between neighbours.
pub open spec fn quoted_list(labels: Seq<Seq<char>>) -> Seq<char> {
    seq!['['] + joined(labels.map_values(|label: Seq<char>| debug_quoted(label)), seq![',', ' '])
        + seq![']']
}

/// The reason given for a rejection: every offending label and the threshold.
pub open spec fn rejection_text(labels: Seq<Seq<char>>, threshold: int) -> Seq<char> {
    "Too many palindrome labels that are not-whitelisted: "@ + quoted_list(labels)
        + ". Max allowed ["@ + decimal(threshold) + seq![']']
}

/// The value of the count annotation for a pod with these label keys: the
/// number of palindromes among them, whitelisted or not, in decimal.
pub open spec fn count_text(keys: Seq<Seq<char>>) -> Seq<char> {
    decimal_nat(matching(keys).len())
}

/// Whether `decision` is the one that the policy prescribes for `parsed`
/// under `settings`.
pub open spec fn decided(parsed: ParsedObject, settings: Settings, decision: Decision) -> bool {
    match parsed {
        ParsedObject::Unrecognized => decision is Accepted,
        ParsedObject::Recognized(pod) => {
            let keys = pod_label_keys(pod);
            let invalid = non_whitelisted(keys, settings.whitelist());
            if !pod_has_labels(pod) {
                decision is Accepted
            } else if invalid.len() > settings.threshold {
                &&& decision is Rejected
                &&& decision->Rejected_0@ == rejection_text(invalid, settings.threshold as int)
            } else {
                &&& decision is AcceptedWithPatch
                &&& decision->AcceptedWithPatch_0 == pod_with_annotation(
                    pod,
                    COUNT_ANNOTATION@,
                    count_text(keys),
                )
            }
        },
    }
}

/// Whether `encoded` is the answer owed for `decision`.
pub open spec fn answers(encoded: Result<Vec<u8>, ResponseError>, decision: Decision) -> bool {
    match decision {
        Decision::Accepted => !(encoded matches Err(ResponseError::Object(_))),
        Decision::AcceptedWithPatch(pod) => match pod_document(pod) {
            None => encoded matches Err(ResponseError::Object(_)),
            Some(object) => match mutation_encoding(object) {
                None => encoded matches Err(ResponseError::Encoding(_)),
                Some(bytes) => encoded is Ok && encoded->Ok_0@ == bytes,
            },
        },
        Decision::Rejected(message) => match rejection_encoding(message@) {
            None => encoded matches Err(ResponseError::Encoding(_)),
            Some(bytes) => encoded is Ok && encoded->Ok_0@ == bytes,
        },
    }
}

/// The document as the engine takes it: a pod, or an object of another kind.
pub open spec fn recognized(object: serde_json::Value) -> ParsedObject {
    match parsed_pod(object) {
        Some(pod) => ParsedObject::Recognized(pod),
        None => ParsedObject::Unrecognized,
    }
}

/// Picks the palindromes among the label keys, keeping their order.
pub fn matching_labels(keys: &Vec<String>) -> (found: Vec<String>)
    ensures
        views(found@) == matching(views(keys@)),
{
    let ghost all = views(keys@);
    let ghost pred = |label: Seq<char>| is_match(label);
    let mut found: Vec<String> = Vec::new();
    let mut i: usize = 0;
    while i < keys.len()
        invariant
            i <= keys.len(),
            all == views(keys@),
            pred == (|label: Seq<char>| is_match(label)),
            views(found@) == all.take(i as int).filter(pred),
        decreases keys.len() - i,
    {
        let label = &keys[i];
        proof {
            lemma_filter_take_next(all, i as int, pred);
        }
        if is_palindrome(label.as_str()) {
            let ghost before = views(found@);
            found.push(label.clone());
            assert(views(found@) =~= before.push(label@));
        }
        i += 1;
    }
    assert(all.take(i as int) =~= all);
    found
}

/// Drops the whitelisted labels, keeping the order of the others.
pub fn outside_whitelist(labels: &Vec<String>, settings: &Settings) -> (left: Vec<String>)
    ensures
        views(left@) == outside(views(labels@), settings.whitelist()),
{
    let ghost all = views(labels@);
    let ghost whitelist = settings.whitelist();
    let ghost pred = |label: Seq<char>| !whitelist.contains(label);
    let mut left: Vec<String> = Vec::new();
    let mut i: usize = 0;
    while i < labels.len()
        invariant
            i <= labels.len(),
            all == views(labels@),
            whitelist == settings.whitelist(),
            pred == (|label: Seq<char>| !whitelist.contains(label)),
            views(left@) == all.take(i as int).filter(pred),
        decreases labels.len() - i,
    {
        let label = &labels[i];
        proof {
            lemma_filter_take_next(all, i as int, pred);
        }
        if !settings.is_whitelisted(label) {
            let ghost before = views(left@);
            left.push(label.clone());
            assert(views(left@) =~= before.push(label@));
        }
        i += 1;
    }
    assert(all.take(i as int) =~= all);
    left
}

/// Writes the reason for a rejection: the offending labels as a quoted list,
/// and the threshold.
pub fn rejection_message(labels: &Vec<String>, threshold: i32) -> (message: String)
    ensures
        message@ == rejection_text(views(labels@), threshold as int),
{
    let ghost quote_of = |label: Seq<char>| debug_quoted(label);
    let mut quoted: Vec<String> = Vec::new();
    let mut i: usize = 0;
    while i < labels.len()
        invariant
            i <= labels.len(),
            quote_of == (|label: Seq<char>| debug_quoted(label)),
            views(quoted@) == views(labels@).take(i as int).map_values(quote_of),
        decreases labels.len() - i,
    {
        let ghost before = views(quoted@);
        quoted.push(quote(labels[i].as_str()));
        assert(views(quoted@) =~= before.push(debug_quoted(labels@[i as int]@)));
        assert(views(quoted@) =~= views(labels@).take(i + 1).map_values(quote_of));
        i += 1;
    }
    assert(views(labels@).take(i as int) =~= views(labels@));
    let list = join(&quoted, ", ");
    let limit = signed_to_string(threshold);
    let mut message = String::from_str("Too many palindrome labels that are not-whitelisted: ");
    message.append("[");
    message.append(list.as_str());
    message.append("]");
    message.append(". Max allowed [");
    message.append(limit.as_str());
    message.append("]");
    proof {
        reveal_strlit(", ");
        reveal_strlit("[");
        reveal_strlit("]");
        assert(", "@ =~= seq![',', ' ']);
        assert("["@ =~= seq!['[']);
        assert("]"@ =~= seq![']']);
        assert(message@ =~= rejection_text(views(labels@), threshold as int));
    }
    message
}

/// Reads the document as a pod; a document that is none is out of this
/// policy's scope.
pub fn recognize(object: serde_json::Value) -> (parsed: ParsedObject)
    ensures
        parsed == recognized(object),
{
    match parse_pod(object) {
        Ok(pod) => ParsedObject::Recognized(pod),
        Err(_) => ParsedObject::Unrecognized,
    }
}

/// Decides on a parsed object: an object that is no pod, or a pod without a
/// label map, passes untouched; a pod with more palindrome labels outside the
/// whitelist than the threshold tolerates is rejected; any other pod passes
/// with its count of palindrome labels written into an annotation.
pub fn decide(parsed: ParsedObject, settings: &Settings) -> (decision: Decision)
    ensures
        decided(parsed, *settings, decision),
        parsed is Unrecognized ==> decision is Accepted,
        parsed is Recognized && !pod_has_labels(parsed->Recognized_0) ==> decision is Accepted,
        parsed is Recognized && pod_has_labels(parsed->Recognized_0) ==> pod_label_keys(
            parsed->Recognized_0,
        ).no_duplicates(),
        decision is AcceptedWithPatch ==> {
            let before = parsed->Recognized_0;
            let after = decision->AcceptedWithPatch_0;
            &&& parsed is Recognized
            &&& pod_has_labels(after)
            &&& pod_label_keys(after) == pod_label_keys(before)
            &&& pod_annotations(after) == pod_annotations(before).insert(
                COUNT_ANNOTATION@,
                count_text(pod_label_keys(before)),
            )
        },
{
    match parsed {
        ParsedObject::Unrecognized => Decision::Accepted,
        ParsedObject::Recognized(pod) => {
            match label_keys(&pod) {
                None => Decision::Accepted,
                Some(keys) => {
                    let palindrome_labels = matching_labels(&keys);
                    let palindrome_count = palindrome_labels.len();
                    let invalid_labels = outside_whitelist(&palindrome_labels, settings);
                    let over = settings.threshold < 0 || invalid_labels.len()
                        > settings.threshold as usize;
                    if over {
                        Decision::Rejected(rejection_message(&invalid_labels, settings.threshold))
                    } else {
                        let count = unsigned_to_string(palindrome_count as u64);
                        Decision::AcceptedWithPatch(
                            annotate(pod, COUNT_ANNOTATION, count.as_str()),
                        )
                    }
                },
            }
        },
    }
}

/// Where no key occurs twice, the palindromes among the keys and those of
/// them outside the whitelist are counted as sets: the first are the keys
/// that match, the second are the first without the whitelist.
pub proof fn lemma_counts_are_set_sizes(keys: Seq<Seq<char>>, whitelist: Set<Seq<char>>)
    requires
        keys.no_duplicates(),
    ensures
        matching(keys).to_set() == keys.to_set().filter(|label: Seq<char>| is_match(label)),
        matching(keys).len() == matching(keys).to_set().len(),
        non_whitelisted(keys, whitelist).to_set() == matching(keys).to_set().difference(whitelist),
        non_whitelisted(keys, whitelist).len() == matching(keys).to_set().difference(
            whitelist,
        ).len(),
{
    let matches = |label: Seq<char>| is_match(label);
    let exempt = |label: Seq<char>| !whitelist.contains(label);
    lemma_filter_of_distinct(keys, matches);
    lemma_filter_of_distinct(matching(keys), exempt);
    assert(matching(keys).to_set().filter(exempt) =~= matching(keys).to_set().difference(
        whitelist,
    ));
}

/// A count of offending labels equal to the threshold is tolerated, and one
/// more is not: at the threshold the pod passes with its annotation, one
/// above it the pod is rejected.
pub proof fn lemma_threshold_boundary(
    pod: k8s_openapi::api::core::v1::Pod,
    settings: Settings,
    decision: Decision,
)
    requires
        pod_has_labels(pod),
        decided(ParsedObject::Recognized(pod), settings, decision),
    ensures
        non_whitelisted(pod_label_keys(pod), settings.whitelist()).len() == settings.threshold
            ==> decision is AcceptedWithPatch,
        non_whitelisted(pod_label_keys(pod), settings.whitelist()).len() == settings.threshold
            + 1 ==> decision is Rejected,
        decision is Rejected <==> non_whitelisted(pod_label_keys(pod), settings.whitelist()).len()
            > settings.threshold,
{
}

/// Deciding again on a pod that was accepted with its annotation, whose
/// labels are those of the pod it was made from, accepts it again and writes
/// the same count.
pub proof fn lemma_count_is_stable(
    pod: k8s_openapi::api::core::v1::Pod,
    settings: Settings,
    first: Decision,
    second: Decision,
)
    requires
        decided(ParsedObject::Recognized(pod), settings, first),
        first is AcceptedWithPatch,
        pod_has_labels(first->AcceptedWithPatch_0),
        pod_label_keys(first->AcceptedWithPatch_0) == pod_label_keys(pod),
        decided(ParsedObject::Recognized(first->AcceptedWithPatch_0), settings, second),
    ensures
        second is AcceptedWithPatch,
        second->AcceptedWithPatch_0 == pod_with_annotation(
            first->AcceptedWithPatch_0,
            COUNT_ANNOTATION@,
            count_text(pod_label_keys(pod)),
        ),
        first->AcceptedWithPatch_0 == pod_with_annotation(
            pod,
            COUNT_ANNOTATION@,
            count_text(pod_label_keys(pod)),
        ),
{
}

/// An object that is no pod, and a pod without a label map, pass untouched.
pub proof fn lemma_out_of_scope_is_accepted(
    parsed: ParsedObject,
    settings: Settings,
    decision: Decision,
)
    requires
        decided(parsed, settings, decision),
        parsed is Unrecognized || !pod_has_labels(parsed->Recognized_0),
    ensures
        decision is Accepted,
{
}

/// Encodes the answer for a decision.
pub fn respond(decision: Decision) -> (encoded: Result<Vec<u8>, ResponseError>)
    ensures
        answers(encoded, decision),
{
    let sent = match decision {
        Decision::Accepted => accept_response(),
        Decision::Rejected(message) => reject_response(message),
        Decision::AcceptedWithPatch(pod) => match pod_to_value(pod) {
            Ok(object) => mutate_response(object),
            Err(error) => {
                return Err(ResponseError::Object(error));
            },
        },
    };
    match sent {
        Ok(bytes) => Ok(bytes),
        Err(reason) => Err(ResponseError::Encoding(reason)),
    }
}

/// Evaluates a submitted object under the settings and encodes the answer.
pub fn validate(object: serde_json::Value, settings: &Settings) -> (encoded: Result<
    Vec<u8>,
    ResponseError,
>)
    ensures
        exists|decision: Decision|
            decided(recognized(object), *settings, decision) && answers(encoded, decision),
{
    let decision = decide(recognize(object), settings);
    let ghost made = decision;
    let encoded = respond(decision);
    assert(decided(recognized(object), *settings, made) && answers(encoded, made));
    encoded
}

} // verus!
