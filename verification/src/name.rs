//! Domain names as sequences of labels.
//!
//! A name is modelled by its labels, most specific first, and by whether it
//! is fully qualified. Two names denote the same key when their labels agree
//! once ASCII letters are folded to lower case; qualification plays no part
//! in that comparison.

use trust_dns_proto::error::ProtoError;
use vstd::prelude::*;

verus! {

/// Longest label a name may hold, in bytes.
pub const MAX_LABEL_LEN: usize = 63;

/// Longest name, counting one separator per label.
pub const MAX_NAME_LEN: usize = 255;

/// The lower-case form of an ASCII byte.
pub open spec fn lower_byte(b: u8) -> u8 {
    if 0x41 <= b <= 0x5a {
        (b + 0x20) as u8
    } else {
        b
    }
}

/// A label with ASCII letters folded to lower case.
pub open spec fn lower_label(label: Seq<u8>) -> Seq<u8> {
    label.map_values(|b: u8| lower_byte(b))
}

/// Every label folded to lower case.
pub open spec fn lower_labels(labels: Seq<Seq<u8>>) -> Seq<Seq<u8>> {
    labels.map_values(|l: Seq<u8>| lower_label(l))
}

/// Sum of the label lengths.
pub open spec fn label_bytes(labels: Seq<Seq<u8>>) -> nat
    decreases labels.len(),
{
    if labels.len() == 0 {
        0
    } else {
        label_bytes(labels.drop_last()) + labels.last().len()
    }
}

/// Length of a name in presentation form: each label and one separator
/// after it; the name without labels counts as one.
pub open spec fn encoded_len(labels: Seq<Seq<u8>>) -> nat {
    if labels.len() == 0 {
        1
    } else {
        labels.len() + label_bytes(labels)
    }
}

/// Labels that can form a name: none empty, none over `MAX_LABEL_LEN`, and
/// together no longer than `MAX_NAME_LEN`.
pub open spec fn labels_ok(labels: Seq<Seq<u8>>) -> bool {
    &&& forall|i: int| 0 <= i < labels.len() ==> 1 <= #[trigger] labels[i].len() <= MAX_LABEL_LEN
    &&& encoded_len(labels) <= MAX_NAME_LEN
}

/// The labels held by a vector of byte vectors.
pub open spec fn labels_of(v: Seq<Vec<u8>>) -> Seq<Seq<u8>> {
    v.map_values(|l: Vec<u8>| l@)
}

/// What a name is: its labels and whether it is fully qualified.
pub ghost struct NameView {
    pub labels: Seq<Seq<u8>>,
    pub fqdn: bool,
}

/// A domain name, case preserved.
#[derive(Debug)]
pub struct Name {
    labels: Vec<Vec<u8>>,
    fqdn: bool,
}

impl View for Name {
    type V = NameView;

    closed spec fn view(&self) -> NameView {
        NameView { labels: labels_of(self.labels@), fqdn: self.fqdn }
    }
}

/// A label more adds its length to the sum.
pub proof fn lemma_label_bytes_push(labels: Seq<Seq<u8>>, label: Seq<u8>)
    ensures
        label_bytes(labels.push(label)) == label_bytes(labels) + label.len(),
{
    assert(labels.push(label).drop_last() =~= labels);
}

/// The sum over two lists, one after the other, is the sum of their sums.
pub proof fn lemma_label_bytes_concat(a: Seq<Seq<u8>>, b: Seq<Seq<u8>>)
    ensures
        label_bytes(a + b) == label_bytes(a) + label_bytes(b),
    decreases b.len(),
{
    if b.len() == 0 {
        assert(a + b =~= a);
    } else {
        lemma_label_bytes_concat(a, b.drop_last());
        assert((a + b).drop_last() =~= a + b.drop_last());
    }
}

/// The first labels of a list are no longer than the whole list.
pub proof fn lemma_label_bytes_prefix(labels: Seq<Seq<u8>>, n: int)
    requires
        0 <= n <= labels.len(),
    ensures
        label_bytes(labels.take(n)) <= label_bytes(labels),
{
    lemma_label_bytes_concat(labels.take(n), labels.skip(n));
    assert(labels.take(n) + labels.skip(n) =~= labels);
}

/// Folding case changes no length, so it keeps labels within the limits.
pub proof fn lemma_lower_keeps_lengths(labels: Seq<Seq<u8>>)
    ensures
        label_bytes(lower_labels(labels)) == label_bytes(labels),
        encoded_len(lower_labels(labels)) == encoded_len(labels),
        labels_ok(labels) ==> labels_ok(lower_labels(labels)),
    decreases labels.len(),
{
    if labels.len() > 0 {
        lemma_lower_keeps_lengths(labels.drop_last());
        assert(lower_labels(labels).drop_last() =~= lower_labels(labels.drop_last()));
    }
}

/// Folding case twice is folding it once.
pub proof fn lemma_lower_idempotent(labels: Seq<Seq<u8>>)
    ensures
        lower_labels(lower_labels(labels)) == lower_labels(labels),
{
    assert forall|i: int| 0 <= i < labels.len() implies lower_labels(lower_labels(labels))[i]
        == lower_labels(labels)[i] by {
        assert(lower_label(lower_label(labels[i])) =~= lower_label(labels[i]));
    }
    assert(lower_labels(lower_labels(labels)) =~= lower_labels(labels));
}

/// Whether two byte strings are the same.
pub fn bytes_eq(a: &Vec<u8>, b: &Vec<u8>) -> (same: bool)
    ensures
        same == (a@ == b@),
{
    if a.len() != b.len() {
        return false;
    }
    let mut i: usize = 0;
    while i < a.len()
        invariant
            i <= a.len(),
            a.len() == b.len(),
            a@.take(i as int) == b@.take(i as int),
        decreases a.len() - i,
    {
        if a[i] != b[i] {
            assert(a@[i as int] != b@[i as int]);
            return false;
        }
        assert(a@.take(i + 1) =~= a@.take(i as int).push(a@[i as int]));
        assert(b@.take(i + 1) =~= b@.take(i as int).push(b@[i as int]));
        i = i + 1;
    }
    assert(a@ =~= a@.take(a.len() as int));
    assert(b@ =~= b@.take(b.len() as int));
    true
}

/// Whether two label lists are the same, byte for byte.
pub fn labels_eq(a: &Vec<Vec<u8>>, b: &Vec<Vec<u8>>) -> (same: bool)
    ensures
        same == (labels_of(a@) == labels_of(b@)),
{
    if a.len() != b.len() {
        assert(labels_of(a@).len() != labels_of(b@).len());
        return false;
    }
    let mut i: usize = 0;
    while i < a.len()
        invariant
            i <= a.len(),
            a.len() == b.len(),
            forall|j: int| 0 <= j < i ==> a@[j]@ == b@[j]@,
        decreases a.len() - i,
    {
        if !bytes_eq(&a[i], &b[i]) {
            assert(labels_of(a@)[i as int] != labels_of(b@)[i as int]);
            return false;
        }
        i = i + 1;
    }
    assert(labels_of(a@) =~= labels_of(b@));
    true
}

/// A copy of a byte string.
pub fn copy_bytes(a: &Vec<u8>) -> (copy: Vec<u8>)
    ensures
        copy@ == a@,
{
    let mut out: Vec<u8> = Vec::new();
    let mut i: usize = 0;
    while i < a.len()
        invariant
            i <= a.len(),
            out@ == a@.take(i as int),
        decreases a.len() - i,
    {
        out.push(a[i]);
        assert(a@.take(i + 1) =~= a@.take(i as int).push(a@[i as int]));
        i = i + 1;
    }
    assert(a@ =~= a@.take(a.len() as int));
    out
}

/// A copy of a label list.
pub fn copy_labels(a: &Vec<Vec<u8>>) -> (copy: Vec<Vec<u8>>)
    ensures
        labels_of(copy@) == labels_of(a@),
{
    let mut out: Vec<Vec<u8>> = Vec::new();
    let mut i: usize = 0;
    while i < a.len()
        invariant
            i <= a.len(),
            out.len() == i,
            forall|j: int| 0 <= j < i ==> out@[j]@ == a@[j]@,
        decreases a.len() - i,
    {
        out.push(copy_bytes(&a[i]));
        i = i + 1;
    }
    assert(labels_of(out@) =~= labels_of(a@));
    out
}

/// The lower-case form of an ASCII byte.
pub fn to_lower_byte(b: u8) -> (low: u8)
    ensures
        low == lower_byte(b),
{
    if 0x41 <= b && b <= 0x5a {
        b + 0x20
    } else {
        b
    }
}

/// A label with ASCII letters folded to lower case.
pub fn to_lower_label(label: &Vec<u8>) -> (low: Vec<u8>)
    ensures
        low@ == lower_label(label@),
{
    let mut out: Vec<u8> = Vec::new();
    let mut i: usize = 0;
    while i < label.len()
        invariant
            i <= label.len(),
            out.len() == i,
            forall|j: int| 0 <= j < i ==> out@[j] == lower_byte(label@[j]),
        decreases label.len() - i,
    {
        out.push(to_lower_byte(label[i]));
        i = i + 1;
    }
    assert(out@ =~= lower_label(label@));
    out
}

/// Length of the name that `labels` form, or `None` where it is over
/// `MAX_NAME_LEN`.
pub fn measure(labels: &Vec<Vec<u8>>) -> (len: Option<usize>)
    ensures
        match len {
            Some(n) => n == encoded_len(labels_of(labels@)) && n <= MAX_NAME_LEN,
            None => encoded_len(labels_of(labels@)) > MAX_NAME_LEN,
        },
{
    let ghost all = labels_of(labels@);
    if labels.len() == 0 {
        return Some(1);
    }
    if labels.len() > MAX_NAME_LEN {
        return None;
    }
    let mut total: usize = labels.len();
    let mut i: usize = 0;
    while i < labels.len()
        invariant
            i <= labels.len(),
            0 < labels.len() <= MAX_NAME_LEN,
            all == labels_of(labels@),
            total == labels.len() + label_bytes(all.take(i as int)),
            total <= MAX_NAME_LEN,
        decreases labels.len() - i,
    {
        let n: usize = labels[i].len();
        proof {
            assert(all.take(i + 1) =~= all.take(i as int).push(all[i as int]));
            lemma_label_bytes_push(all.take(i as int), all[i as int]);
            lemma_label_bytes_prefix(all, i + 1);
        }
        if n > MAX_NAME_LEN - total {
            return None;
        }
        total = total + n;
        i = i + 1;
    }
    assert(all.take(labels.len() as int) =~= all);
    Some(total)
}

/// Whether the labels meet the limits on label and name length.
pub fn within_limits(labels: &Vec<Vec<u8>>) -> (ok: bool)
    ensures
        ok == labels_ok(labels_of(labels@)),
{
    let mut i: usize = 0;
    while i < labels.len()
        invariant
            i <= labels.len(),
            forall|j: int| 0 <= j < i ==> 1 <= #[trigger] labels_of(labels@)[j].len() <= MAX_LABEL_LEN,
        decreases labels.len() - i,
    {
        let n: usize = labels[i].len();
        if n == 0 || n > MAX_LABEL_LEN {
            assert(!(1 <= labels_of(labels@)[i as int].len() <= MAX_LABEL_LEN));
            return false;
        }
        i = i + 1;
    }
    measure(labels).is_some()
}

impl Name {
    /// The name `.`: no labels, fully qualified.
    pub fn root() -> (name: Name)
        ensures
            name@ == (NameView { labels: Seq::empty(), fqdn: true }),
    {
        assert(labels_of(Seq::<Vec<u8>>::empty()) =~= Seq::empty());
        Name { labels: Vec::new(), fqdn: true }
    }

    /// Every name keeps the limits on label and name length.
    #[verifier::type_invariant]
    spec fn inv(&self) -> bool {
        labels_ok(labels_of(self.labels@))
    }

    /// The labels, most specific first. They keep the limits on label and
    /// name length.
    pub fn labels(&self) -> (labels: &Vec<Vec<u8>>)
        ensures
            labels_of(labels@) == self@.labels,
            labels_ok(self@.labels),
    {
        proof {
            use_type_invariant(self);
        }
        &self.labels
    }

    /// The name with the given labels, or `None` where a label is empty or
    /// longer than `MAX_LABEL_LEN`, or the name longer than `MAX_NAME_LEN`.
    pub fn from_labels(labels: Vec<Vec<u8>>, fqdn: bool) -> (res: Option<Name>)
        ensures
            res is Some <==> labels_ok(labels_of(labels@)),
            res matches Some(name) ==> name@ == (NameView { labels: labels_of(labels@), fqdn }),
    {
        if within_limits(&labels) {
            Some(Name { labels, fqdn })
        } else {
            None
        }
    }

    /// Whether the name is fully qualified.
    pub fn is_fqdn(&self) -> (fqdn: bool)
        ensures
            fqdn == self@.fqdn,
    {
        self.fqdn
    }

    /// Whether the name is the root.
    pub fn is_root(&self) -> (root: bool)
        ensures
            root == (self@.labels.len() == 0 && self@.fqdn),
    {
        self.labels.len() == 0 && self.fqdn
    }

    /// Marks the name as fully qualified or not.
    pub fn set_fqdn(&mut self, val: bool)
        ensures
            final(self)@ == (NameView { labels: old(self)@.labels, fqdn: val }),
    {
        proof {
            use_type_invariant(&*self);
        }
        self.fqdn = val;
    }

    /// A copy of the name.
    pub fn duplicate(&self) -> (copy: Name)
        ensures
            copy@ == self@,
    {
        proof {
            use_type_invariant(self);
        }
        Name { labels: copy_labels(&self.labels), fqdn: self.fqdn }
    }

    /// The name with every label in lower case.
    pub fn to_lowercase(&self) -> (low: Name)
        ensures
            low@ == (NameView { labels: lower_labels(self@.labels), fqdn: self@.fqdn }),
    {
        proof {
            use_type_invariant(self);
        }
        let mut out: Vec<Vec<u8>> = Vec::new();
        let mut i: usize = 0;
        while i < self.labels.len()
            invariant
                i <= self.labels.len(),
                out.len() == i,
                forall|j: int| 0 <= j < i ==> out@[j]@ == lower_label(self.labels@[j]@),
            decreases self.labels.len() - i,
        {
            out.push(to_lower_label(&self.labels[i]));
            i = i + 1;
        }
        proof {
            assert(labels_of(out@) =~= lower_labels(self@.labels));
            lemma_lower_keeps_lengths(self@.labels);
        }
        Name { labels: out, fqdn: self.fqdn }
    }

    /// Whether two names have the same labels once case is folded.
    /// Qualification is not compared.
    pub fn same_as(&self, other: &Name) -> (same: bool)
        ensures
            same == (lower_labels(self@.labels) == lower_labels(other@.labels)),
    {
        let a = self.to_lowercase();
        let b = other.to_lowercase();
        labels_eq(&a.labels, &b.labels)
    }

    /// Whether two names have the same labels, byte for byte.
    /// Qualification is not compared.
    pub fn eq_case(&self, other: &Name) -> (same: bool)
        ensures
            same == (self@.labels == other@.labels),
    {
        labels_eq(&self.labels, &other.labels)
    }
}

/// What appending `domain` to `name` gives: the labels of both, fully
/// qualified, unless together they are too long for a name.
pub open spec fn appended(name: NameView, domain: NameView) -> Option<NameView> {
    if encoded_len(name.labels + domain.labels) <= MAX_NAME_LEN {
        Some(NameView { labels: name.labels + domain.labels, fqdn: true })
    } else {
        None
    }
}

/// The error type of the DNS protocol library.
#[verifier::external_type_specification]
#[verifier::external_body]
pub struct ExProtoError(ProtoError);

/// The name that a text in presentation form denotes, as labels and
/// qualification, or `None` where the text denotes no name.
pub uninterp spec fn name_of_text(text: Seq<char>) -> Option<(Seq<Seq<u8>>, bool)>;

/// The presentation form of the name with the given labels and
/// qualification.
pub uninterp spec fn text_of_name(labels: Seq<Seq<u8>>, fqdn: bool) -> Seq<char>;

/// `trust_dns_proto::rr::Name::from_str`, with the parsed name handed over
/// label by label. The call is a function of the text alone; the contract
/// names its result and says that it fails exactly where the text denotes
/// no name. The source lets no label be empty or longer than 63 bytes and
/// no name longer than 255, which is what the type demands of the value
/// built here.
#[verifier::external_body]
fn parse_name(text: &str) -> (res: Result<Name, ProtoError>)
    ensures
        match res {
            Ok(name) => name_of_text(text@) == Some((name@.labels, name@.fqdn)),
            Err(_) => name_of_text(text@) is None,
        },
{
    match text.parse::<trust_dns_proto::rr::Name>() {
        Ok(parsed) => Ok(
            Name { labels: parsed.iter().map(|label| label.to_vec()).collect(), fqdn: parsed.is_fqdn() },
        ),
        Err(err) => Err(err),
    }
}

/// `trust_dns_proto::rr::Name::to_string` on the name built by
/// `Name::from_labels` and `set_fqdn`. Building succeeds for labels within
/// the limits, which every name keeps; the text is a function of labels and
/// qualification alone, which the contract names.
#[verifier::external_body]
fn format_name(name: &Name) -> (text: String)
    ensures
        text@ == text_of_name(name@.labels, name@.fqdn),
{
    match trust_dns_proto::rr::Name::from_labels(name.labels.clone()) {
        Ok(mut built) => {
            built.set_fqdn(name.fqdn);
            built.to_string()
        },
        Err(_) => String::new(),
    }
}

/// `trust_dns_proto::rr::Name::append_domain` on the names built by
/// `Name::from_labels`, with the result handed over label by label. The
/// source adds the domain's labels one by one, fails as soon as the name
/// is longer than 255, and marks the result fully qualified.
#[verifier::external_body]
fn append_names(name: &Name, domain: &Name) -> (res: Result<Name, ProtoError>)
    ensures
        match res {
            Ok(full) => appended(name@, domain@) == Some(full@),
            Err(_) => appended(name@, domain@) is None,
        },
{
    let front = trust_dns_proto::rr::Name::from_labels(name.labels.clone())?;
    let back = trust_dns_proto::rr::Name::from_labels(domain.labels.clone())?;
    let full = front.append_domain(&back)?;
    Ok(Name { labels: full.iter().map(|label| label.to_vec()).collect(), fqdn: full.is_fqdn() })
}

impl Name {
    /// Parses a name in presentation form, such as `www.example.com.`.
    /// A trailing dot makes the name fully qualified.
    pub fn from_str(text: &str) -> (res: Result<Name, ProtoError>)
        ensures
            match res {
                Ok(name) => name_of_text(text@) == Some((name@.labels, name@.fqdn)),
                Err(_) => name_of_text(text@) is None,
            },
    {
        parse_name(text)
    }

    /// The name in presentation form.
    pub fn to_text(&self) -> (text: String)
        ensures
            text@ == text_of_name(self@.labels, self@.fqdn),
    {
        format_name(self)
    }

    /// Appends `domain` to the name and marks the result fully qualified.
    /// Fails where the result would be longer than `MAX_NAME_LEN`.
    pub fn append_domain(&self, domain: &Name) -> (res: Result<Name, ProtoError>)
        ensures
            match res {
                Ok(full) => appended(self@, domain@) == Some(full@),
                Err(_) => appended(self@, domain@) is None,
            },
    {
        append_names(self, domain)
    }
}

/// A domain name in lower case, the form in which names are compared and
/// stored.
#[derive(Debug)]
pub struct LowerName {
    name: Name,
}

impl View for LowerName {
    type V = NameView;

    closed spec fn view(&self) -> NameView {
        self.name@
    }
}

impl LowerName {
    /// No label holds an upper-case ASCII letter.
    #[verifier::type_invariant]
    spec fn inv(&self) -> bool {
        lower_labels(self.name@.labels) == self.name@.labels
    }

    /// The lower-case form of `name`.
    pub fn new(name: &Name) -> (low: LowerName)
        ensures
            low@ == (NameView { labels: lower_labels(name@.labels), fqdn: name@.fqdn }),
    {
        proof {
            lemma_lower_idempotent(name@.labels);
        }
        LowerName { name: name.to_lowercase() }
    }

    /// Parses a name in presentation form and folds it to lower case.
    pub fn from_str(text: &str) -> (res: Result<LowerName, ProtoError>)
        ensures
            match res {
                Ok(low) => name_of_text(text@) matches Some(parsed) && low@ == (NameView {
                    labels: lower_labels(parsed.0),
                    fqdn: parsed.1,
                }),
                Err(_) => name_of_text(text@) is None,
            },
    {
        match Name::from_str(text) {
            Ok(name) => Ok(LowerName::new(&name)),
            Err(err) => Err(err),
        }
    }

    /// The labels, which identify the name wherever names are compared.
    pub open spec fn key(&self) -> Seq<Seq<u8>> {
        self@.labels
    }

    /// Whether the name is fully qualified.
    pub fn is_fqdn(&self) -> (fqdn: bool)
        ensures
            fqdn == self@.fqdn,
    {
        self.name.fqdn
    }

    /// Whether two names are the same key: equal labels, qualification
    /// aside.
    pub fn same_as(&self, other: &LowerName) -> (same: bool)
        ensures
            same == (self.key() == other.key()),
    {
        labels_eq(&self.name.labels, &other.name.labels)
    }

    /// A copy of the name.
    pub fn duplicate(&self) -> (copy: LowerName)
        ensures
            copy@ == self@,
    {
        proof {
            use_type_invariant(self);
        }
        LowerName { name: self.name.duplicate() }
    }

    /// The name as a `Name`.
    pub fn to_name(&self) -> (name: Name)
        ensures
            name@ == self@,
    {
        self.name.duplicate()
    }

    /// The labels, most specific first. They keep the limits on label and
    /// name length.
    pub fn labels(&self) -> (labels: &Vec<Vec<u8>>)
        ensures
            labels_of(labels@) == self.key(),
            labels_ok(self.key()),
            lower_labels(self.key()) == self.key(),
    {
        proof {
            use_type_invariant(self);
        }
        self.name.labels()
    }

    /// The name, borrowed.
    pub fn as_name(&self) -> (name: &Name)
        ensures
            name@ == self@,
    {
        &self.name
    }

    /// The name in presentation form.
    pub fn to_text(&self) -> (text: String)
        ensures
            text@ == text_of_name(self@.labels, self@.fqdn),
    {
        self.name.to_text()
    }
}

/// Folding case goes label by label: the lower-case form of two lists of
/// labels, one after the other, is the lower-case forms one after the
/// other.
pub proof fn lemma_lower_concat(a: Seq<Seq<u8>>, b: Seq<Seq<u8>>)
    ensures
        lower_labels(a + b) == lower_labels(a) + lower_labels(b),
{
    assert(lower_labels(a + b) =~= lower_labels(a) + lower_labels(b));
}

} // verus!
