//! The policy's settings and the palindrome predicate they are checked with.

use crate::text::{decimal, join, joined, lemma_filter_take_next, signed_to_string, views};
use vstd::prelude::*;
use vstd::string::{StringExecFns, StringSliceAdditionalSpecFns};
use vstd::utf8::encode_utf8;

verus! {

/// A byte sequence is a palindrome when every byte equals the byte mirrored
/// around the middle of the sequence.
pub open spec fn palindrome(s: Seq<u8>) -> bool {
    forall|i: int| 0 <= i < s.len() ==> s[i] == #[trigger] s[s.len() - 1 - i]
}

/// The matching predicate on a label: its UTF-8 bytes are a palindrome.
pub open spec fn is_match(label: Seq<char>) -> bool {
    palindrome(encode_utf8(label))
}

/// A byte sequence is a palindrome exactly when its reversal is one.
pub proof fn lemma_palindrome_reverse(s: Seq<u8>)
    ensures
        palindrome(s) == palindrome(s.reverse()),
{
    let r = s.reverse();
    if palindrome(s) {
        assert forall|i: int| 0 <= i < r.len() implies r[i] == #[trigger] r[r.len() - 1 - i] by {
            assert(s[i] == s[s.len() - 1 - i]);
        }
    }
    if palindrome(r) {
        assert forall|i: int| 0 <= i < s.len() implies s[i] == #[trigger] s[s.len() - 1 - i] by {
            assert(r[i] == r[r.len() - 1 - i]);
        }
    }
}

/// A palindrome is its own reversal, and only a palindrome is.
pub proof fn lemma_palindrome_is_own_reverse(s: Seq<u8>)
    ensures
        palindrome(s) <==> s.reverse() == s,
{
    let r = s.reverse();
    if palindrome(s) {
        assert forall|i: int| 0 <= i < s.len() implies r[i] == s[i] by {
            assert(s[i] == s[s.len() - 1 - i]);
        }
        assert(r =~= s);
    }
    if r == s {
        assert forall|i: int| 0 <= i < s.len() implies s[i] == #[trigger] s[s.len() - 1 - i] by {
            assert(r[i] == s[s.len() - 1 - i]);
        }
    }
}

/// Whether the UTF-8 bytes of `word` read the same in both directions.
pub fn is_palindrome(word: &str) -> (matches: bool)
    ensures
        matches == palindrome(word.spec_bytes()),
{
    let chars = word.as_bytes();
    let len = chars.len();
    let half = len / 2;
    let mut i: usize = 0;
    while i < half
        invariant
            chars@ == word.spec_bytes(),
            len == chars@.len(),
            half == len / 2,
            i <= half,
            forall|j: int| 0 <= j < i ==> chars@[j] == #[trigger] chars@[len - 1 - j],
        decreases half - i,
    {
        if chars[i] != chars[len - i - 1] {
            proof {
                let s = word.spec_bytes();
                assert(s[i as int] != s[s.len() - 1 - i]);
            }
            return false;
        }
        i += 1;
    }
    proof {
        assert forall|j: int| 0 <= j < len implies chars@[j] == #[trigger] chars@[len - 1 - j] by {
            if j >= half {
                let k: int = len - 1 - j;
                assert(chars@[k] == chars@[len - 1 - k]);
            }
        }
    }
    true
}

/// What the policy is configured with.
#[derive(Debug, Clone)]
pub struct Settings {
    /// How many palindrome labels outside the whitelist a pod may carry.
    pub threshold: i32,
    /// The label keys that do not count against the threshold.
    pub whitelisted_labels: Vec<String>,
}

/// Why a configuration is refused.
#[derive(Debug, Clone, PartialEq, Eq)]
pub enum ValidationError {
    /// Some whitelisted labels are no palindromes; they are carried joined
    /// by commas, in the order of the whitelist.
    InvalidWhitelist(String),
    /// The threshold, which is negative.
    InvalidThreshold(i32),
}

impl Default for Settings {
    fn default() -> (settings: Settings)
        ensures
            settings.threshold == 0,
            settings.whitelisted_labels@.len() == 0,
            settings.wf(),
            settings.valid(),
    {
        Settings { threshold: 0, whitelisted_labels: Vec::new() }
    }
}

impl Settings {
    /// The whitelist as a set of labels.
    pub open spec fn whitelist(&self) -> Set<Seq<char>> {
        views(self.whitelisted_labels@).to_set()
    }

    /// The whitelisted labels that are no palindromes, in the whitelist's order.
    pub open spec fn offending(&self) -> Seq<Seq<char>> {
        views(self.whitelisted_labels@).filter(|label: Seq<char>| !is_match(label))
    }

    /// The whitelist is a set: no label stands in it twice.
    pub open spec fn wf(&self) -> bool {
        views(self.whitelisted_labels@).no_duplicates()
    }

    /// A configuration is valid when its threshold is not negative and every
    /// whitelisted label is a palindrome.
    pub open spec fn valid(&self) -> bool {
        &&& self.threshold >= 0
        &&& forall|label: Seq<char>| #[trigger] self.whitelist().contains(label) ==> is_match(label)
    }

    /// Settings with this threshold and these labels on the whitelist, each
    /// label once, in the order in which the labels first occur.
    pub fn new(threshold: i32, labels: Vec<String>) -> (settings: Settings)
        ensures
            settings.wf(),
            settings.threshold == threshold,
            settings.whitelist() == views(labels@).to_set(),
    {
        let mut settings = Settings { threshold, whitelisted_labels: Vec::new() };
        let mut i: usize = 0;
        while i < labels.len()
            invariant
                i <= labels.len(),
                settings.wf(),
                settings.threshold == threshold,
                settings.whitelist() == views(labels@).take(i as int).to_set(),
            decreases labels.len() - i,
        {
            let label = &labels[i];
            let ghost before = views(settings.whitelisted_labels@);
            let ghost seen = views(labels@).take(i as int);
            proof {
                assert(views(labels@).take(i + 1) =~= seen.push(label@));
                seen.lemma_push_to_set_commute(label@);
            }
            if !settings.is_whitelisted(label) {
                settings.whitelisted_labels.push(label.clone());
                proof {
                    let after = views(settings.whitelisted_labels@);
                    assert(after =~= before.push(label@));
                    assert(!before.contains(label@));
                    assert forall|a: int, b: int|
                        0 <= a < after.len() && 0 <= b < after.len() && a != b implies after[a]
                        != after[b] by {
                        if a < before.len() && b < before.len() {
                            assert(before[a] != before[b]);
                        } else if a < before.len() {
                            assert(before.contains(before[a]));
                        } else {
                            assert(before.contains(before[b]));
                        }
                    }
                    before.lemma_push_to_set_commute(label@);
                }
            } else {
                assert(before.to_set().insert(label@) =~= before.to_set());
            }
            i += 1;
        }
        assert(views(labels@).take(i as int) =~= views(labels@));
        settings
    }

    /// Whether `label` is on the whitelist.
    pub fn is_whitelisted(&self, label: &String) -> (found: bool)
        ensures
            found == self.whitelist().contains(label@),
    {
        let mut i: usize = 0;
        while i < self.whitelisted_labels.len()
            invariant
                i <= self.whitelisted_labels.len(),
                forall|j: int| 0 <= j < i ==> self.whitelisted_labels@[j]@ != label@,
            decreases self.whitelisted_labels.len() - i,
        {
            if self.whitelisted_labels[i] == *label {
                assert(views(self.whitelisted_labels@)[i as int] == label@);
                return true;
            }
            i += 1;
        }
        proof {
            let all = views(self.whitelisted_labels@);
            if all.contains(label@) {
                let j = choose|j: int| 0 <= j < all.len() && all[j] == label@;
                assert(self.whitelisted_labels@[j]@ == label@);
            }
        }
        false
    }

    /// Checks the configuration: first the whitelist, then the threshold.
    pub fn validate(&self) -> (checked: Result<(), ValidationError>)
        ensures
            checked is Ok <==> self.valid(),
            match checked {
                Ok(_) => self.offending().len() == 0 && self.threshold >= 0,
                Err(ValidationError::InvalidWhitelist(labels)) => {
                    &&& self.offending().len() > 0
                    &&& labels@ == joined(self.offending(), seq![','])
                },
                Err(ValidationError::InvalidThreshold(threshold)) => {
                    &&& self.offending().len() == 0
                    &&& self.threshold < 0
                    &&& threshold == self.threshold
                },
            },
    {
        let ghost all = views(self.whitelisted_labels@);
        let ghost pred = |label: Seq<char>| !is_match(label);
        let mut non_palindrome_labels: Vec<String> = Vec::new();
        let mut i: usize = 0;
        while i < self.whitelisted_labels.len()
            invariant
                i <= self.whitelisted_labels.len(),
                all == views(self.whitelisted_labels@),
                pred == (|label: Seq<char>| !is_match(label)),
                views(non_palindrome_labels@) == all.take(i as int).filter(pred),
            decreases self.whitelisted_labels.len() - i,
        {
            let label = &self.whitelisted_labels[i];
            proof {
                lemma_filter_take_next(all, i as int, pred);
            }
            if !is_palindrome(label.as_str()) {
                let ghost before = views(non_palindrome_labels@);
                non_palindrome_labels.push(label.clone());
                assert(views(non_palindrome_labels@) =~= before.push(label@));
            }
            i += 1;
        }
        proof {
            assert(all.take(i as int) =~= all);
            broadcast use vstd::seq_lib::group_filter_ensures;
            if self.offending().len() == 0 {
                assert forall|label: Seq<char>| #[trigger]
                    self.whitelist().contains(label) implies is_match(label) by {
                    if !is_match(label) {
                        let j = choose|j: int| 0 <= j < all.len() && all[j] == label;
                        assert(pred(all[j]));
                        assert(all.filter(pred).contains(all[j]));
                    }
                }
            } else {
                let bad = self.offending()[0];
                assert(pred(bad));
                assert(all.filter(pred).contains(bad));
                all.lemma_filter_contains_rev(pred, bad);
                assert(self.whitelist().contains(bad));
            }
        }
        if non_palindrome_labels.len() > 0 {
            let labels = join(&non_palindrome_labels, ",");
            proof {
                reveal_strlit(",");
                assert(","@ =~= seq![',']);
            }
            return Err(ValidationError::InvalidWhitelist(labels));
        }
        if self.threshold < 0 {
            return Err(ValidationError::InvalidThreshold(self.threshold));
        }
        Ok(())
    }
}

impl ValidationError {
    /// The text of the message.
    pub open spec fn text(&self) -> Seq<char> {
        match self {
            ValidationError::InvalidWhitelist(labels) =>
                "whitelisted_labels contains non palindrome labels: "@ + labels@,
            ValidationError::InvalidThreshold(threshold) =>
                "Threshold cannot be negative: "@ + decimal(*threshold as int),
        }
    }

    /// The message shown to the user.
    pub fn message(&self) -> (text: String)
        ensures
            text@ == self.text(),
    {
        match self {
            ValidationError::InvalidWhitelist(labels) => {
                let mut text = String::from_str("whitelisted_labels contains non palindrome labels: ");
                text.append(labels.as_str());
                text
            },
            ValidationError::InvalidThreshold(threshold) => {
                let mut text = String::from_str("Threshold cannot be negative: ");
                let number = signed_to_string(*threshold);
                text.append(number.as_str());
                text
            },
        }
    }
}

} // verus!
