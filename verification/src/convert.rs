use vstd::prelude::*;

verus! {

/// A key and value of a Kubernetes object's annotations.
#[derive(Debug)]
pub struct Annotation {
    pub key: Option<String>,
    pub value: Option<String>,
}

/// A key and value of a Kubernetes object's labels.
#[derive(Debug)]
pub struct Label {
    pub key: Option<String>,
    pub value: Option<String>,
}

/// The metadata of a pod as the browser API reports it.
#[derive(Debug)]
pub struct ObjectMeta {
    pub namespace: Option<String>,
    pub name: Option<String>,
    pub annotations: Vec<Annotation>,
    pub labels: Vec<Label>,
}

/// A pod as the browser API reports it.
#[derive(Debug)]
pub struct Pod {
    pub metadata: Option<ObjectMeta>,
}

/// The metadata of a pod as the Kubernetes API gives it: annotations and labels
/// in the order of their keys.
#[derive(Debug)]
pub struct KubeObjectMeta {
    pub namespace: Option<String>,
    pub name: Option<String>,
    pub annotations: Option<Vec<(String, String)>>,
    pub labels: Option<Vec<(String, String)>>,
}

/// Whether text `a` comes before text `b` in the order of their characters'
/// code points, a prefix first. (For UTF-8 text this is the order of their bytes,
/// the order of Rust's `String`.)
pub open spec fn text_lt(a: Seq<char>, b: Seq<char>) -> bool
    decreases a.len(),
{
    if b.len() == 0 {
        false
    } else if a.len() == 0 {
        true
    } else if a[0] != b[0] {
        (a[0] as u32) < (b[0] as u32)
    } else {
        text_lt(a.skip(1), b.skip(1))
    }
}

/// The pairs' keys strictly increase: each key occurs once, in order.
pub open spec fn keys_increase(kv: Seq<(String, String)>) -> bool {
    forall|i: int, j: int| 0 <= i < j < kv.len() ==> text_lt(#[trigger] kv[i].0@, #[trigger] kv[j].0@)
}

impl KubeObjectMeta {
    /// Annotations and labels are maps, held in the order of their keys.
    pub open spec fn wf(&self) -> bool {
        &&& (self.annotations matches Some(a) ==> keys_increase(a@))
        &&& (self.labels matches Some(l) ==> keys_increase(l@))
    }
}

/// A pod as the Kubernetes API gives it.
#[derive(Debug)]
pub struct KubePod {
    pub metadata: KubeObjectMeta,
}

/// The annotation with the key and value of the pair.
pub open spec fn annotation_of(kv: (String, String)) -> Annotation {
    Annotation { key: Some(kv.0), value: Some(kv.1) }
}

/// The label with the key and value of the pair.
pub open spec fn label_of(kv: (String, String)) -> Label {
    Label { key: Some(kv.0), value: Some(kv.1) }
}

impl From<(String, String)> for Annotation {
    fn from(kv: (String, String)) -> (r: Annotation)
        ensures
            r.key == Some(kv.0),
            r.value == Some(kv.1),
    {
        Annotation { key: Some(kv.0), value: Some(kv.1) }
    }
}

impl vstd::std_specs::convert::FromSpecImpl<(String, String)> for Annotation {
    open spec fn obeys_from_spec() -> bool {
        true
    }

    open spec fn from_spec(kv: (String, String)) -> Annotation {
        annotation_of(kv)
    }
}

impl From<(String, String)> for Label {
    fn from(kv: (String, String)) -> (r: Label)
        ensures
            r.key == Some(kv.0),
            r.value == Some(kv.1),
    {
        Label { key: Some(kv.0), value: Some(kv.1) }
    }
}

impl vstd::std_specs::convert::FromSpecImpl<(String, String)> for Label {
    open spec fn obeys_from_spec() -> bool {
        true
    }

    open spec fn from_spec(kv: (String, String)) -> Label {
        label_of(kv)
    }
}

/// Each annotation and label keeps its key and value, in the same order; absent
/// annotations or labels become none.
pub open spec fn meta_converted(f: KubeObjectMeta, r: ObjectMeta) -> bool {
    &&& r.namespace == f.namespace
    &&& r.name == f.name
    &&& match f.annotations {
        None => r.annotations@.len() == 0,
        Some(a) => r.annotations@.len() == a@.len() && forall|i: int|
            0 <= i < a@.len() ==> #[trigger] r.annotations@[i] == annotation_of(a@[i]),
    }
    &&& match f.labels {
        None => r.labels@.len() == 0,
        Some(l) => r.labels@.len() == l@.len() && forall|i: int|
            0 <= i < l@.len() ==> #[trigger] r.labels@[i] == label_of(l@[i]),
    }
}

/// Converted metadata keeps each annotation's and each label's key as the key
/// and its value as the value, in the same places, and the namespace and name.
pub proof fn lemma_conversion_keeps_keys_and_values(f: KubeObjectMeta, r: ObjectMeta)
    requires
        meta_converted(f, r),
    ensures
        r.namespace == f.namespace,
        r.name == f.name,
        f.annotations matches Some(a) ==> r.annotations@.len() == a@.len() && forall|i: int|
            0 <= i < a@.len() ==> #[trigger] r.annotations@[i].key == Some(a@[i].0)
                && r.annotations@[i].value == Some(a@[i].1),
        f.labels matches Some(l) ==> r.labels@.len() == l@.len() && forall|i: int|
            0 <= i < l@.len() ==> #[trigger] r.labels@[i].key == Some(l@[i].0)
                && r.labels@[i].value == Some(l@[i].1),
        f.annotations is None ==> r.annotations@.len() == 0,
        f.labels is None ==> r.labels@.len() == 0,
{
    if let Some(a) = f.annotations {
        assert forall|i: int| 0 <= i < a@.len() implies #[trigger] r.annotations@[i].key == Some(
            a@[i].0,
        ) && r.annotations@[i].value == Some(a@[i].1) by {
            assert(r.annotations@[i] == annotation_of(a@[i]));
        }
    }
    if let Some(l) = f.labels {
        assert forall|i: int| 0 <= i < l@.len() implies #[trigger] r.labels@[i].key == Some(l@[i].0)
            && r.labels@[i].value == Some(l@[i].1) by {
            assert(r.labels@[i] == label_of(l@[i]));
        }
    }
}

fn convert_annotations(a: Vec<(String, String)>) -> (r: Vec<Annotation>)
    ensures
        r@.len() == a@.len(),
        forall|i: int|
            0 <= i < a@.len() ==> #[trigger] r@[i] == annotation_of(a@[i]),
{
    let mut r: Vec<Annotation> = Vec::new();
    let mut a = a;
    let ghost orig = a@;
    let mut rev: Vec<(String, String)> = Vec::new();
    while a.len() > 0
        invariant
            rev@.len() + a@.len() == orig.len(),
            a@ == orig.take(a@.len() as int),
            forall|j: int| 0 <= j < rev@.len() ==> rev@[j] == orig[orig.len() - 1 - j],
        decreases a@.len(),
    {
        let kv = a.pop().unwrap();
        rev.push(kv);
        assert(a@ =~= orig.take(a@.len() as int));
    }
    while rev.len() > 0
        invariant
            r@.len() + rev@.len() == orig.len(),
            forall|j: int| 0 <= j < rev@.len() ==> rev@[j] == orig[orig.len() - 1 - j],
            forall|i: int|
                0 <= i < r@.len() ==> #[trigger] r@[i] == annotation_of(orig[i]),
        decreases rev@.len(),
    {
        let kv = rev.pop().unwrap();
        r.push(Annotation::from(kv));
    }
    r
}

fn convert_labels(l: Vec<(String, String)>) -> (r: Vec<Label>)
    ensures
        r@.len() == l@.len(),
        forall|i: int|
            0 <= i < l@.len() ==> #[trigger] r@[i] == label_of(l@[i]),
{
    let mut r: Vec<Label> = Vec::new();
    let mut l = l;
    let ghost orig = l@;
    let mut rev: Vec<(String, String)> = Vec::new();
    while l.len() > 0
        invariant
            rev@.len() + l@.len() == orig.len(),
            l@ == orig.take(l@.len() as int),
            forall|j: int| 0 <= j < rev@.len() ==> rev@[j] == orig[orig.len() - 1 - j],
        decreases l@.len(),
    {
        let kv = l.pop().unwrap();
        rev.push(kv);
        assert(l@ =~= orig.take(l@.len() as int));
    }
    while rev.len() > 0
        invariant
            r@.len() + rev@.len() == orig.len(),
            forall|j: int| 0 <= j < rev@.len() ==> rev@[j] == orig[orig.len() - 1 - j],
            forall|i: int|
                0 <= i < r@.len() ==> #[trigger] r@[i] == label_of(orig[i]),
        decreases rev@.len(),
    {
        let kv = rev.pop().unwrap();
        r.push(Label::from(kv));
    }
    r
}

impl ObjectMeta {
    /// The metadata that the browser API reports for a pod's Kubernetes metadata.
    pub fn from_kube(f: KubeObjectMeta) -> (r: ObjectMeta)
        requires
            f.wf(),
        ensures
            meta_converted(f, r),
    {
        let annotations = match f.annotations {
            Some(a) => convert_annotations(a),
            None => Vec::new(),
        };
        let labels = match f.labels {
            Some(l) => convert_labels(l),
            None => Vec::new(),
        };
        ObjectMeta { namespace: f.namespace, name: f.name, annotations, labels }
    }
}

impl Pod {
    /// The pod that the browser API reports for a Kubernetes pod.
    pub fn from_kube(f: KubePod) -> (r: Pod)
        requires
            f.metadata.wf(),
        ensures
            r.metadata matches Some(m) && meta_converted(f.metadata, m),
    {
        Pod { metadata: Some(ObjectMeta::from_kube(f.metadata)) }
    }
}

} // verus!
