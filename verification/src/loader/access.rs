//! Which parts of a message a processing script reads, collected while the
//! script is analysed.
use vstd::prelude::*;
use crate::plan::{
    AccessMode, ByteRange, JsonAccess, JsonPath, JsonPathSegment, JsonPathSegmentKind,
    MessageAccessPlan, MetadataAccess, PropertiesAccess, RawPayloadAccess, SourceAccess,
    TopicAccess,
};
use crate::text::{str_chars, str_eq};

verus! {

/// One step of a path into the JSON payload.
#[derive(Debug)]
pub enum AccessPathSegment {
    Field(String),
    Index(u32),
}

/// Model of an `AccessPathSegment`.
pub enum SegModel {
    Field(Seq<char>),
    Index(u32),
}

impl View for AccessPathSegment {
    type V = SegModel;

    open spec fn view(&self) -> SegModel {
        match self {
            AccessPathSegment::Field(f) => SegModel::Field(f@),
            AccessPathSegment::Index(i) => SegModel::Index(*i),
        }
    }
}

/// Model of a path.
pub open spec fn path_view(p: Seq<AccessPathSegment>) -> Seq<SegModel> {
    p.map_values(|s: AccessPathSegment| s@)
}

/// Model of a set of paths.
pub open spec fn paths_view(p: Seq<Vec<AccessPathSegment>>) -> Seq<Seq<SegModel>> {
    p.map_values(|q: Vec<AccessPathSegment>| path_view(q@))
}

/// Model of a set of keys.
pub open spec fn keys_view(p: Seq<String>) -> Seq<Seq<char>> {
    p.map_values(|k: String| k@)
}

pub open spec fn u32_lt(a: u32, b: u32) -> bool {
    a < b
}

pub open spec fn range_lt(a: (u32, u32), b: (u32, u32)) -> bool {
    a.0 < b.0 || (a.0 == b.0 && a.1 < b.1)
}

/// String order: lexicographic over code points, as `Ord for String`.
pub open spec fn chars_lt(a: Seq<char>, b: Seq<char>) -> bool
    decreases a.len(),
{
    if a.len() == 0 {
        b.len() > 0
    } else if b.len() == 0 {
        false
    } else if a[0] < b[0] {
        true
    } else if a[0] == b[0] {
        chars_lt(a.drop_first(), b.drop_first())
    } else {
        false
    }
}

/// Segment order, as the derived `Ord`: fields before indexes.
pub open spec fn seg_lt(a: SegModel, b: SegModel) -> bool {
    match (a, b) {
        (SegModel::Field(x), SegModel::Field(y)) => chars_lt(x, y),
        (SegModel::Field(_), SegModel::Index(_)) => true,
        (SegModel::Index(_), SegModel::Field(_)) => false,
        (SegModel::Index(x), SegModel::Index(y)) => x < y,
    }
}

/// Path order: lexicographic over segments, as `Ord for Vec`.
pub open spec fn path_lt(a: Seq<SegModel>, b: Seq<SegModel>) -> bool
    decreases a.len(),
{
    if a.len() == 0 {
        b.len() > 0
    } else if b.len() == 0 {
        false
    } else if seg_lt(a[0], b[0]) {
        true
    } else if a[0] == b[0] {
        path_lt(a.drop_first(), b.drop_first())
    } else {
        false
    }
}

fn chars_slice_lt(a: &[char], b: &[char], i: usize) -> (r: bool)
    requires
        i <= a.len(),
        i <= b.len(),
    ensures
        r == chars_lt(a@.skip(i as int), b@.skip(i as int)),
    decreases a.len() - i,
{
    let ghost x = a@.skip(i as int);
    let ghost y = b@.skip(i as int);
    if i == a.len() {
        i < b.len()
    } else if i == b.len() {
        false
    } else if a[i] < b[i] {
        true
    } else if a[i] == b[i] {
        assert(x.drop_first() =~= a@.skip(i + 1));
        assert(y.drop_first() =~= b@.skip(i + 1));
        chars_slice_lt(a, b, i + 1)
    } else {
        false
    }
}

/// `a < b` for strings.
pub fn string_lt(a: &str, b: &str) -> (r: bool)
    ensures
        r == chars_lt(a@, b@),
{
    let x = str_chars(a);
    let y = str_chars(b);
    assert(x@.skip(0) =~= x@);
    assert(y@.skip(0) =~= y@);
    chars_slice_lt(x.as_slice(), y.as_slice(), 0)
}

fn segment_lt(a: &AccessPathSegment, b: &AccessPathSegment) -> (r: bool)
    ensures
        r == seg_lt(a@, b@),
{
    match (a, b) {
        (AccessPathSegment::Field(x), AccessPathSegment::Field(y)) => string_lt(x.as_str(), y.as_str()),
        (AccessPathSegment::Field(_), AccessPathSegment::Index(_)) => true,
        (AccessPathSegment::Index(_), AccessPathSegment::Field(_)) => false,
        (AccessPathSegment::Index(x), AccessPathSegment::Index(y)) => *x < *y,
    }
}

fn segment_eq(a: &AccessPathSegment, b: &AccessPathSegment) -> (r: bool)
    ensures
        r == (a@ == b@),
{
    match (a, b) {
        (AccessPathSegment::Field(x), AccessPathSegment::Field(y)) => str_eq(x.as_str(), y.as_str()),
        (AccessPathSegment::Index(x), AccessPathSegment::Index(y)) => *x == *y,
        _ => false,
    }
}

fn path_slice_lt(a: &[AccessPathSegment], b: &[AccessPathSegment], i: usize) -> (r: bool)
    requires
        i <= a.len(),
        i <= b.len(),
    ensures
        r == path_lt(path_view(a@).skip(i as int), path_view(b@).skip(i as int)),
    decreases a.len() - i,
{
    let ghost x = path_view(a@).skip(i as int);
    let ghost y = path_view(b@).skip(i as int);
    if i == a.len() {
        i < b.len()
    } else if i == b.len() {
        false
    } else if segment_lt(&a[i], &b[i]) {
        true
    } else if segment_eq(&a[i], &b[i]) {
        assert(x.drop_first() =~= path_view(a@).skip(i + 1));
        assert(y.drop_first() =~= path_view(b@).skip(i + 1));
        path_slice_lt(a, b, i + 1)
    } else {
        false
    }
}

/// `a < b` for paths.
fn access_path_lt(a: &Vec<AccessPathSegment>, b: &Vec<AccessPathSegment>) -> (r: bool)
    ensures
        r == path_lt(path_view(a@), path_view(b@)),
{
    assert(path_view(a@).skip(0) =~= path_view(a@));
    assert(path_view(b@).skip(0) =~= path_view(b@));
    path_slice_lt(a.as_slice(), b.as_slice(), 0)
}

/// `a == b` for paths.
fn access_path_eq(a: &Vec<AccessPathSegment>, b: &Vec<AccessPathSegment>) -> (r: bool)
    ensures
        r == (path_view(a@) == path_view(b@)),
{
    if a.len() != b.len() {
        assert(path_view(a@).len() != path_view(b@).len());
        return false;
    }
    let mut i: usize = 0;
    while i < a.len()
        invariant
            a.len() == b.len(),
            i <= a.len(),
            forall|j: int| 0 <= j < i ==> path_view(a@)[j] == path_view(b@)[j],
        decreases a.len() - i,
    {
        if !segment_eq(&a[i], &b[i]) {
            assert(path_view(a@)[i as int] != path_view(b@)[i as int]);
            return false;
        }
        i = i + 1;
    }
    assert(path_view(a@) =~= path_view(b@));
    true
}

/// Copy of a segment.
pub fn copy_segment(s: &AccessPathSegment) -> (r: AccessPathSegment)
    ensures
        r@ == s@,
{
    match s {
        AccessPathSegment::Field(f) => AccessPathSegment::Field(f.clone()),
        AccessPathSegment::Index(i) => AccessPathSegment::Index(*i),
    }
}

/// Copy of a path.
pub fn copy_path(p: &Vec<AccessPathSegment>) -> (r: Vec<AccessPathSegment>)
    ensures
        path_view(r@) == path_view(p@),
{
    let mut r: Vec<AccessPathSegment> = Vec::new();
    let mut i: usize = 0;
    while i < p.len()
        invariant
            i <= p.len(),
            r@.len() == i,
            forall|j: int| 0 <= j < i ==> r@[j]@ == p@[j]@,
        decreases p.len() - i,
    {
        r.push(copy_segment(&p[i]));
        i = i + 1;
    }
    assert(path_view(r@) =~= path_view(p@));
    r
}

/// `s` with `x` inserted before the first element that is not less than it,
/// unless that element equals `x`: insertion into an ordered set.
pub open spec fn insert_index(s: Seq<u32>, x: u32) -> Seq<u32>
    decreases s.len(),
{
    if s.len() == 0 {
        seq![x]
    } else if u32_lt(s[0], x) {
        seq![s[0]] + insert_index(s.drop_first(), x)
    } else if s[0] == x {
        s
    } else {
        seq![x] + s
    }
}

proof fn lemma_insert_index_prefix(s: Seq<u32>, x: u32, i: int)
    requires
        0 <= i <= s.len(),
        forall|j: int| 0 <= j < i ==> u32_lt(#[trigger] s[j], x),
    ensures
        insert_index(s, x) == s.take(i) + insert_index(s.skip(i), x),
    decreases i,
{
    if i > 0 {
        assert forall|j: int| 0 <= j < i - 1 implies u32_lt(#[trigger] s.drop_first()[j], x) by {
            assert(s.drop_first()[j] == s[j + 1]);
        }
        lemma_insert_index_prefix(s.drop_first(), x, i - 1);
        assert(s.drop_first().skip(i - 1) =~= s.skip(i));
        assert(s.take(i) =~= seq![s[0]] + s.drop_first().take(i - 1));
        assert(insert_index(s, x) =~= s.take(i) + insert_index(s.skip(i), x));
    } else {
        assert(s.skip(0) =~= s);
        assert(s.take(0) + insert_index(s, x) =~= insert_index(s, x));
    }
}

proof fn lemma_insert_index_at(s: Seq<u32>, x: u32, i: int)
    requires
        0 <= i <= s.len(),
        forall|j: int| 0 <= j < i ==> u32_lt(#[trigger] s[j], x),
        i < s.len() ==> !u32_lt(s[i], x),
    ensures
        i < s.len() && s[i] == x ==> insert_index(s, x) == s,
        !(i < s.len() && s[i] == x) ==> insert_index(s, x) == s.insert(i, x),
{
    lemma_insert_index_prefix(s, x, i);
    if i < s.len() {
        assert(s.skip(i)[0] == s[i]);
        if s[i] == x {
            assert(s.take(i) + s.skip(i) =~= s);
        } else {
            assert(s.take(i) + (seq![x] + s.skip(i)) =~= s.insert(i, x));
        }
    } else {
        assert(s.skip(i).len() == 0);
        assert(s.take(i) + seq![x] =~= s.insert(i, x));
    }
}

/// `s` with `x` inserted before the first element that is not less than it,
/// unless that element equals `x`: insertion into an ordered set.
pub open spec fn insert_range(s: Seq<(u32, u32)>, x: (u32, u32)) -> Seq<(u32, u32)>
    decreases s.len(),
{
    if s.len() == 0 {
        seq![x]
    } else if range_lt(s[0], x) {
        seq![s[0]] + insert_range(s.drop_first(), x)
    } else if s[0] == x {
        s
    } else {
        seq![x] + s
    }
}

proof fn lemma_insert_range_prefix(s: Seq<(u32, u32)>, x: (u32, u32), i: int)
    requires
        0 <= i <= s.len(),
        forall|j: int| 0 <= j < i ==> range_lt(#[trigger] s[j], x),
    ensures
        insert_range(s, x) == s.take(i) + insert_range(s.skip(i), x),
    decreases i,
{
    if i > 0 {
        assert forall|j: int| 0 <= j < i - 1 implies range_lt(#[trigger] s.drop_first()[j], x) by {
            assert(s.drop_first()[j] == s[j + 1]);
        }
        lemma_insert_range_prefix(s.drop_first(), x, i - 1);
        assert(s.drop_first().skip(i - 1) =~= s.skip(i));
        assert(s.take(i) =~= seq![s[0]] + s.drop_first().take(i - 1));
        assert(insert_range(s, x) =~= s.take(i) + insert_range(s.skip(i), x));
    } else {
        assert(s.skip(0) =~= s);
        assert(s.take(0) + insert_range(s, x) =~= insert_range(s, x));
    }
}

proof fn lemma_insert_range_at(s: Seq<(u32, u32)>, x: (u32, u32), i: int)
    requires
        0 <= i <= s.len(),
        forall|j: int| 0 <= j < i ==> range_lt(#[trigger] s[j], x),
        i < s.len() ==> !range_lt(s[i], x),
    ensures
        i < s.len() && s[i] == x ==> insert_range(s, x) == s,
        !(i < s.len() && s[i] == x) ==> insert_range(s, x) == s.insert(i, x),
{
    lemma_insert_range_prefix(s, x, i);
    if i < s.len() {
        assert(s.skip(i)[0] == s[i]);
        if s[i] == x {
            assert(s.take(i) + s.skip(i) =~= s);
        } else {
            assert(s.take(i) + (seq![x] + s.skip(i)) =~= s.insert(i, x));
        }
    } else {
        assert(s.skip(i).len() == 0);
        assert(s.take(i) + seq![x] =~= s.insert(i, x));
    }
}

/// `s` with `x` inserted before the first element that is not less than it,
/// unless that element equals `x`: insertion into an ordered set.
pub open spec fn insert_key(s: Seq<Seq<char>>, x: Seq<char>) -> Seq<Seq<char>>
    decreases s.len(),
{
    if s.len() == 0 {
        seq![x]
    } else if chars_lt(s[0], x) {
        seq![s[0]] + insert_key(s.drop_first(), x)
    } else if s[0] == x {
        s
    } else {
        seq![x] + s
    }
}

proof fn lemma_insert_key_prefix(s: Seq<Seq<char>>, x: Seq<char>, i: int)
    requires
        0 <= i <= s.len(),
        forall|j: int| 0 <= j < i ==> chars_lt(#[trigger] s[j], x),
    ensures
        insert_key(s, x) == s.take(i) + insert_key(s.skip(i), x),
    decreases i,
{
    if i > 0 {
        assert forall|j: int| 0 <= j < i - 1 implies chars_lt(#[trigger] s.drop_first()[j], x) by {
            assert(s.drop_first()[j] == s[j + 1]);
        }
        lemma_insert_key_prefix(s.drop_first(), x, i - 1);
        assert(s.drop_first().skip(i - 1) =~= s.skip(i));
        assert(s.take(i) =~= seq![s[0]] + s.drop_first().take(i - 1));
        assert(insert_key(s, x) =~= s.take(i) + insert_key(s.skip(i), x));
    } else {
        assert(s.skip(0) =~= s);
        assert(s.take(0) + insert_key(s, x) =~= insert_key(s, x));
    }
}

proof fn lemma_insert_key_at(s: Seq<Seq<char>>, x: Seq<char>, i: int)
    requires
        0 <= i <= s.len(),
        forall|j: int| 0 <= j < i ==> chars_lt(#[trigger] s[j], x),
        i < s.len() ==> !chars_lt(s[i], x),
    ensures
        i < s.len() && s[i] == x ==> insert_key(s, x) == s,
        !(i < s.len() && s[i] == x) ==> insert_key(s, x) == s.insert(i, x),
{
    lemma_insert_key_prefix(s, x, i);
    if i < s.len() {
        assert(s.skip(i)[0] == s[i]);
        if s[i] == x {
            assert(s.take(i) + s.skip(i) =~= s);
        } else {
            assert(s.take(i) + (seq![x] + s.skip(i)) =~= s.insert(i, x));
        }
    } else {
        assert(s.skip(i).len() == 0);
        assert(s.take(i) + seq![x] =~= s.insert(i, x));
    }
}

/// `s` with `x` inserted before the first element that is not less than it,
/// unless that element equals `x`: insertion into an ordered set.
pub open spec fn insert_path(s: Seq<Seq<SegModel>>, x: Seq<SegModel>) -> Seq<Seq<SegModel>>
    decreases s.len(),
{
    if s.len() == 0 {
        seq![x]
    } else if path_lt(s[0], x) {
        seq![s[0]] + insert_path(s.drop_first(), x)
    } else if s[0] == x {
        s
    } else {
        seq![x] + s
    }
}

proof fn lemma_insert_path_prefix(s: Seq<Seq<SegModel>>, x: Seq<SegModel>, i: int)
    requires
        0 <= i <= s.len(),
        forall|j: int| 0 <= j < i ==> path_lt(#[trigger] s[j], x),
    ensures
        insert_path(s, x) == s.take(i) + insert_path(s.skip(i), x),
    decreases i,
{
    if i > 0 {
        assert forall|j: int| 0 <= j < i - 1 implies path_lt(#[trigger] s.drop_first()[j], x) by {
            assert(s.drop_first()[j] == s[j + 1]);
        }
        lemma_insert_path_prefix(s.drop_first(), x, i - 1);
        assert(s.drop_first().skip(i - 1) =~= s.skip(i));
        assert(s.take(i) =~= seq![s[0]] + s.drop_first().take(i - 1));
        assert(insert_path(s, x) =~= s.take(i) + insert_path(s.skip(i), x));
    } else {
        assert(s.skip(0) =~= s);
        assert(s.take(0) + insert_path(s, x) =~= insert_path(s, x));
    }
}

proof fn lemma_insert_path_at(s: Seq<Seq<SegModel>>, x: Seq<SegModel>, i: int)
    requires
        0 <= i <= s.len(),
        forall|j: int| 0 <= j < i ==> path_lt(#[trigger] s[j], x),
        i < s.len() ==> !path_lt(s[i], x),
    ensures
        i < s.len() && s[i] == x ==> insert_path(s, x) == s,
        !(i < s.len() && s[i] == x) ==> insert_path(s, x) == s.insert(i, x),
{
    lemma_insert_path_prefix(s, x, i);
    if i < s.len() {
        assert(s.skip(i)[0] == s[i]);
        if s[i] == x {
            assert(s.take(i) + s.skip(i) =~= s);
        } else {
            assert(s.take(i) + (seq![x] + s.skip(i)) =~= s.insert(i, x));
        }
    } else {
        assert(s.skip(i).len() == 0);
        assert(s.take(i) + seq![x] =~= s.insert(i, x));
    }
}

fn insert_index_exec(v: &mut Vec<u32>, x: u32)
    ensures
        final(v)@ == insert_index(old(v)@, x),
{
    let mut i: usize = 0;
    while i < v.len() && v[i] < x
        invariant
            v@ == old(v)@,
            i <= v.len(),
            forall|j: int| 0 <= j < i ==> u32_lt(#[trigger] v@[j], x),
        decreases v.len() - i,
    {
        i = i + 1;
    }
    proof {
        lemma_insert_index_at(v@, x, i as int);
    }
    if i < v.len() && v[i] == x {
    } else {
        v.insert(i, x);
    }
}

fn insert_range_exec(v: &mut Vec<(u32, u32)>, x: (u32, u32))
    ensures
        final(v)@ == insert_range(old(v)@, x),
{
    let mut i: usize = 0;
    while i < v.len() && (v[i].0 < x.0 || (v[i].0 == x.0 && v[i].1 < x.1))
        invariant
            v@ == old(v)@,
            i <= v.len(),
            forall|j: int| 0 <= j < i ==> range_lt(#[trigger] v@[j], x),
        decreases v.len() - i,
    {
        i = i + 1;
    }
    proof {
        lemma_insert_range_at(v@, x, i as int);
    }
    if i < v.len() && v[i].0 == x.0 && v[i].1 == x.1 {
    } else {
        v.insert(i, x);
    }
}

fn insert_key_exec(v: &mut Vec<String>, x: String)
    ensures
        keys_view(final(v)@) == insert_key(keys_view(old(v)@), x@),
{
    let mut i: usize = 0;
    while i < v.len() && string_lt(v[i].as_str(), x.as_str())
        invariant
            v@ == old(v)@,
            i <= v.len(),
            forall|j: int| 0 <= j < i ==> chars_lt(#[trigger] keys_view(v@)[j], x@),
        decreases v.len() - i,
    {
        i = i + 1;
    }
    proof {
        lemma_insert_key_at(keys_view(v@), x@, i as int);
    }
    if i < v.len() && str_eq(v[i].as_str(), x.as_str()) {
    } else {
        let ghost before = v@;
        v.insert(i, x);
        assert(keys_view(v@) =~= keys_view(before).insert(i as int, x@));
    }
}

fn insert_path_exec(v: &mut Vec<Vec<AccessPathSegment>>, x: Vec<AccessPathSegment>)
    ensures
        paths_view(final(v)@) == insert_path(paths_view(old(v)@), path_view(x@)),
{
    let mut i: usize = 0;
    while i < v.len() && access_path_lt(&v[i], &x)
        invariant
            v@ == old(v)@,
            i <= v.len(),
            forall|j: int| 0 <= j < i ==> path_lt(#[trigger] paths_view(v@)[j], path_view(x@)),
        decreases v.len() - i,
    {
        i = i + 1;
    }
    proof {
        lemma_insert_path_at(paths_view(v@), path_view(x@), i as int);
    }
    if i < v.len() && access_path_eq(&v[i], &x) {
    } else {
        let ghost before = v@;
        let ghost xv = path_view(x@);
        v.insert(i, x);
        assert(paths_view(v@) =~= paths_view(before).insert(i as int, xv));
    }
}

/// Collects what a script reads from a message.
#[derive(Debug)]
pub struct AccessPlanBuilder {
    pub source_full: bool,
    pub source_name: bool,
    pub source_version: bool,
    pub topic_full: bool,
    pub topic_raw: bool,
    pub topic_levels: bool,
    pub topic_level_indexes: Vec<u32>,
    pub payload_full: bool,
    pub payload_paths: Vec<Vec<AccessPathSegment>>,
    pub raw_payload_full: bool,
    pub raw_payload_ranges: Vec<(u32, u32)>,
    pub metadata_full: bool,
    pub metadata_pkid: bool,
    pub metadata_qos: bool,
    pub metadata_retain: bool,
    pub metadata_dup: bool,
    pub properties_full: bool,
    pub property_keys: Vec<String>,
}

/// Model of an `AccessPlanBuilder`: flags, and the ordered sets of level
/// indexes, payload paths, byte ranges and property keys.
pub struct BuilderModel {
    pub source_full: bool,
    pub source_name: bool,
    pub source_version: bool,
    pub topic_full: bool,
    pub topic_raw: bool,
    pub topic_levels: bool,
    pub topic_level_indexes: Seq<u32>,
    pub payload_full: bool,
    pub payload_paths: Seq<Seq<SegModel>>,
    pub raw_payload_full: bool,
    pub raw_payload_ranges: Seq<(u32, u32)>,
    pub metadata_full: bool,
    pub metadata_pkid: bool,
    pub metadata_qos: bool,
    pub metadata_retain: bool,
    pub metadata_dup: bool,
    pub properties_full: bool,
    pub property_keys: Seq<Seq<char>>,
}

impl View for AccessPlanBuilder {
    type V = BuilderModel;

    open spec fn view(&self) -> BuilderModel {
        BuilderModel {
            source_full: self.source_full,
            source_name: self.source_name,
            source_version: self.source_version,
            topic_full: self.topic_full,
            topic_raw: self.topic_raw,
            topic_levels: self.topic_levels,
            topic_level_indexes: self.topic_level_indexes@,
            payload_full: self.payload_full,
            payload_paths: paths_view(self.payload_paths@),
            raw_payload_full: self.raw_payload_full,
            raw_payload_ranges: self.raw_payload_ranges@,
            metadata_full: self.metadata_full,
            metadata_pkid: self.metadata_pkid,
            metadata_qos: self.metadata_qos,
            metadata_retain: self.metadata_retain,
            metadata_dup: self.metadata_dup,
            properties_full: self.properties_full,
            property_keys: keys_view(self.property_keys@),
        }
    }
}

/// The builder of a script that reads nothing.
pub open spec fn empty_builder() -> BuilderModel {
    BuilderModel {
        source_full: false,
        source_name: false,
        source_version: false,
        topic_full: false,
        topic_raw: false,
        topic_levels: false,
        topic_level_indexes: seq![],
        payload_full: false,
        payload_paths: seq![],
        raw_payload_full: false,
        raw_payload_ranges: seq![],
        metadata_full: false,
        metadata_pkid: false,
        metadata_qos: false,
        metadata_retain: false,
        metadata_dup: false,
        properties_full: false,
        property_keys: seq![],
    }
}

/// The mode of a part of the message: full, selective where some sub-part
/// is read, none otherwise.
pub open spec fn mode_of(full: bool, some: bool) -> AccessMode {
    if full {
        AccessMode::Full
    } else if some {
        AccessMode::Selective
    } else {
        AccessMode::NoAccess
    }
}

pub open spec fn spec_source_mode(b: BuilderModel) -> AccessMode {
    mode_of(b.source_full, b.source_name || b.source_version)
}

pub open spec fn spec_topic_mode(b: BuilderModel) -> AccessMode {
    mode_of(b.topic_full, b.topic_raw || b.topic_levels || b.topic_level_indexes.len() > 0)
}

pub open spec fn spec_payload_mode(b: BuilderModel) -> AccessMode {
    mode_of(b.payload_full, b.payload_paths.len() > 0)
}

pub open spec fn spec_raw_payload_mode(b: BuilderModel) -> AccessMode {
    mode_of(b.raw_payload_full, b.raw_payload_ranges.len() > 0)
}

pub open spec fn spec_metadata_mode(b: BuilderModel) -> AccessMode {
    mode_of(b.metadata_full, b.metadata_pkid || b.metadata_qos || b.metadata_retain || b.metadata_dup)
}

pub open spec fn spec_properties_mode(b: BuilderModel) -> AccessMode {
    mode_of(b.properties_full, b.property_keys.len() > 0)
}

/// Recording a field of the source context.
pub open spec fn spec_record_source_field(b: BuilderModel, f: Seq<char>) -> BuilderModel {
    if f == "name"@ {
        BuilderModel { source_name: true, ..b }
    } else if f == "version"@ {
        BuilderModel { source_version: true, ..b }
    } else {
        BuilderModel { source_full: true, ..b }
    }
}

/// Recording a field of the topic.
pub open spec fn spec_record_topic_field(b: BuilderModel, f: Seq<char>) -> BuilderModel {
    if f == "raw"@ {
        BuilderModel { topic_raw: true, ..b }
    } else if f == "levels"@ {
        BuilderModel { topic_levels: true, ..b }
    } else {
        BuilderModel { topic_full: true, ..b }
    }
}

/// Recording a topic level read at a statically known index.
pub open spec fn spec_record_topic_level(b: BuilderModel, index: u32) -> BuilderModel {
    BuilderModel { topic_level_indexes: insert_index(b.topic_level_indexes, index), ..b }
}

/// Recording a payload path: the empty path reads the whole payload; other
/// paths are kept unless the whole payload is already read.
pub open spec fn spec_record_payload_path(b: BuilderModel, path: Seq<SegModel>) -> BuilderModel {
    if path.len() == 0 {
        BuilderModel { payload_full: true, ..b }
    } else if !b.payload_full {
        BuilderModel { payload_paths: insert_path(b.payload_paths, path), ..b }
    } else {
        b
    }
}

/// Recording a raw payload byte read at a 1-based index.
pub open spec fn spec_record_raw_payload_index(b: BuilderModel, lua_index: u32) -> BuilderModel {
    let offset: u32 = if lua_index == 0 { 0 } else { (lua_index - 1) as u32 };
    BuilderModel { raw_payload_ranges: insert_range(b.raw_payload_ranges, (offset, 1u32)), ..b }
}

/// Recording a field of the MQTT metadata.
pub open spec fn spec_record_metadata_field(b: BuilderModel, f: Seq<char>) -> BuilderModel {
    if f == "pkid"@ {
        BuilderModel { metadata_pkid: true, ..b }
    } else if f == "qos"@ {
        BuilderModel { metadata_qos: true, ..b }
    } else if f == "retain"@ {
        BuilderModel { metadata_retain: true, ..b }
    } else if f == "dup"@ {
        BuilderModel { metadata_dup: true, ..b }
    } else {
        BuilderModel { metadata_full: true, ..b }
    }
}

/// `a` is `b` after the script read metadata field `f`: a named field
/// (pkid, qos, retain, dup) is marked read, another name marks the whole
/// metadata read, and nothing else changes.
pub open spec fn marks_metadata_read(b: BuilderModel, f: Seq<char>, a: BuilderModel) -> bool {
    &&& a.metadata_pkid == (b.metadata_pkid || f == "pkid"@)
    &&& a.metadata_qos == (b.metadata_qos || f == "qos"@)
    &&& a.metadata_retain == (b.metadata_retain || f == "retain"@)
    &&& a.metadata_dup == (b.metadata_dup || f == "dup"@)
    &&& a.metadata_full == (b.metadata_full || !(f == "pkid"@ || f == "qos"@ || f == "retain"@ || f == "dup"@))
    &&& a.source_full == b.source_full && a.source_name == b.source_name && a.source_version == b.source_version
    &&& a.topic_full == b.topic_full && a.topic_raw == b.topic_raw && a.topic_levels == b.topic_levels
    &&& a.topic_level_indexes == b.topic_level_indexes
    &&& a.payload_full == b.payload_full && a.payload_paths == b.payload_paths
    &&& a.raw_payload_full == b.raw_payload_full && a.raw_payload_ranges == b.raw_payload_ranges
    &&& a.properties_full == b.properties_full && a.property_keys == b.property_keys
}

/// Reading a metadata field marks exactly that field: after the script
/// reads `msg.metadata.f`, the flag named `f` is set, the other metadata
/// flags and the rest of the plan are as before.
pub proof fn law_metadata_read_marks_that_field(b: BuilderModel, f: Seq<char>)
    ensures
        marks_metadata_read(b, f, spec_record_metadata_field(b, f)),
{
    reveal_strlit("pkid");
    reveal_strlit("qos");
    reveal_strlit("retain");
    reveal_strlit("dup");
    assert("pkid"@.len() == 4 && "qos"@.len() == 3 && "retain"@.len() == 6 && "dup"@.len() == 3);
    assert("qos"@[0] != "dup"@[0]);
    assert("pkid"@ != "qos"@ && "pkid"@ != "retain"@ && "pkid"@ != "dup"@);
    assert("qos"@ != "retain"@ && "qos"@ != "dup"@ && "retain"@ != "dup"@);
}

/// Recording a property key, unless all properties are already read.
pub open spec fn spec_record_property_key(b: BuilderModel, key: Seq<char>) -> BuilderModel {
    if !b.properties_full {
        BuilderModel { property_keys: insert_key(b.property_keys, key), ..b }
    } else {
        b
    }
}

/// Model of a plan segment.
pub open spec fn json_segment_view(s: JsonPathSegment) -> Option<SegModel> {
    match s.kind {
        Some(JsonPathSegmentKind::Field(f)) => Some(SegModel::Field(f@)),
        Some(JsonPathSegmentKind::Index(i)) => Some(SegModel::Index(i)),
        None => None,
    }
}

/// Model of a plan path.
pub open spec fn json_path_view(p: JsonPath) -> Seq<SegModel> {
    p.segments@.map_values(|s: JsonPathSegment| json_segment_view(s).unwrap())
}

/// The payload segment of the plan for one path segment.
pub fn json_path_segment(segment: AccessPathSegment) -> (r: JsonPathSegment)
    ensures
        json_segment_view(r) == Some(segment@),
{
    let kind = match segment {
        AccessPathSegment::Field(field) => JsonPathSegmentKind::Field(field),
        AccessPathSegment::Index(index) => JsonPathSegmentKind::Index(index),
    };
    JsonPathSegment { kind: Some(kind) }
}

/// `plan` reports, for each part of the message, the mode and what is read
/// of it that builder `b` collected.
pub open spec fn plan_matches(plan: MessageAccessPlan, b: BuilderModel) -> bool {
    &&& plan.source matches Some(s) && s.mode == spec_source_mode(b) && s.name == b.source_name
        && s.version == b.source_version
    &&& plan.topic matches Some(t) && t.mode == spec_topic_mode(b) && t.raw == b.topic_raw
        && t.levels == b.topic_levels && t.level_indexes@ == b.topic_level_indexes
    &&& plan.payload matches Some(p) && p.mode == spec_payload_mode(b)
        && p.paths@.map_values(|q: JsonPath| json_path_view(q)) == b.payload_paths
    &&& plan.raw_payload matches Some(w) && w.mode == spec_raw_payload_mode(b)
        && w.ranges@.map_values(|g: ByteRange| (g.offset, g.length)) == b.raw_payload_ranges
    &&& plan.metadata matches Some(m) && m.mode == spec_metadata_mode(b) && m.pkid == b.metadata_pkid
        && m.qos == b.metadata_qos && m.retain == b.metadata_retain && m.dup == b.metadata_dup
    &&& plan.properties matches Some(k) && k.mode == spec_properties_mode(b) && keys_view(k.keys@)
        == b.property_keys
}

impl AccessPlanBuilder {
    pub fn new() -> (r: Self)
        ensures
            r@ == empty_builder(),
    {
        let r = AccessPlanBuilder {
            source_full: false,
            source_name: false,
            source_version: false,
            topic_full: false,
            topic_raw: false,
            topic_levels: false,
            topic_level_indexes: Vec::new(),
            payload_full: false,
            payload_paths: Vec::new(),
            raw_payload_full: false,
            raw_payload_ranges: Vec::new(),
            metadata_full: false,
            metadata_pkid: false,
            metadata_qos: false,
            metadata_retain: false,
            metadata_dup: false,
            properties_full: false,
            property_keys: Vec::new(),
        };
        assert(r@.payload_paths =~= seq![]);
        assert(r@.property_keys =~= seq![]);
        r
    }

    pub fn source_mode(&self) -> (r: AccessMode)
        ensures
            r == spec_source_mode(self@),
    {
        if self.source_full {
            AccessMode::Full
        } else if self.source_name || self.source_version {
            AccessMode::Selective
        } else {
            AccessMode::NoAccess
        }
    }

    pub fn topic_mode(&self) -> (r: AccessMode)
        ensures
            r == spec_topic_mode(self@),
    {
        if self.topic_full {
            AccessMode::Full
        } else if self.topic_raw || self.topic_levels || self.topic_level_indexes.len() > 0 {
            AccessMode::Selective
        } else {
            AccessMode::NoAccess
        }
    }

    pub fn payload_mode(&self) -> (r: AccessMode)
        ensures
            r == spec_payload_mode(self@),
    {
        if self.payload_full {
            AccessMode::Full
        } else if self.payload_paths.len() > 0 {
            AccessMode::Selective
        } else {
            AccessMode::NoAccess
        }
    }

    pub fn raw_payload_mode(&self) -> (r: AccessMode)
        ensures
            r == spec_raw_payload_mode(self@),
    {
        if self.raw_payload_full {
            AccessMode::Full
        } else if self.raw_payload_ranges.len() > 0 {
            AccessMode::Selective
        } else {
            AccessMode::NoAccess
        }
    }

    pub fn metadata_mode(&self) -> (r: AccessMode)
        ensures
            r == spec_metadata_mode(self@),
    {
        if self.metadata_full {
            AccessMode::Full
        } else if self.metadata_pkid || self.metadata_qos || self.metadata_retain
            || self.metadata_dup {
            AccessMode::Selective
        } else {
            AccessMode::NoAccess
        }
    }

    pub fn properties_mode(&self) -> (r: AccessMode)
        ensures
            r == spec_properties_mode(self@),
    {
        if self.properties_full {
            AccessMode::Full
        } else if self.property_keys.len() > 0 {
            AccessMode::Selective
        } else {
            AccessMode::NoAccess
        }
    }

    pub fn record_source_field(&mut self, field: &str)
        ensures
            final(self)@ == spec_record_source_field(old(self)@, field@),
    {
        if str_eq(field, "name") {
            self.source_name = true;
        } else if str_eq(field, "version") {
            self.source_version = true;
        } else {
            self.source_full = true;
        }
    }

    pub fn record_topic_field(&mut self, field: &str)
        ensures
            final(self)@ == spec_record_topic_field(old(self)@, field@),
    {
        if str_eq(field, "raw") {
            self.topic_raw = true;
        } else if str_eq(field, "levels") {
            self.topic_levels = true;
        } else {
            self.topic_full = true;
        }
    }

    pub fn record_topic_level(&mut self, index: u32)
        ensures
            final(self)@ == spec_record_topic_level(old(self)@, index),
    {
        insert_index_exec(&mut self.topic_level_indexes, index);
    }

    pub fn record_payload_path(&mut self, path: &Vec<AccessPathSegment>)
        ensures
            final(self)@ == spec_record_payload_path(old(self)@, path_view(path@)),
    {
        if path.len() == 0 {
            self.payload_full = true;
        } else if !self.payload_full {
            insert_path_exec(&mut self.payload_paths, copy_path(path));
        }
    }

    pub fn record_raw_payload_index(&mut self, lua_index: u32)
        ensures
            final(self)@ == spec_record_raw_payload_index(old(self)@, lua_index),
    {
        let offset = if lua_index == 0 {
            0
        } else {
            lua_index - 1
        };
        insert_range_exec(&mut self.raw_payload_ranges, (offset, 1));
    }

    pub fn record_metadata_field(&mut self, field: &str)
        ensures
            final(self)@ == spec_record_metadata_field(old(self)@, field@),
            marks_metadata_read(old(self)@, field@, final(self)@),
    {
        if str_eq(field, "pkid") {
            self.metadata_pkid = true;
        } else if str_eq(field, "qos") {
            self.metadata_qos = true;
        } else if str_eq(field, "retain") {
            self.metadata_retain = true;
        } else if str_eq(field, "dup") {
            self.metadata_dup = true;
        } else {
            self.metadata_full = true;
        }
        proof {
            law_metadata_read_marks_that_field(old(self)@, field@);
        }
    }

    pub fn record_property_key(&mut self, key: &str)
        ensures
            final(self)@ == spec_record_property_key(old(self)@, key@),
    {
        if !self.properties_full {
            insert_key_exec(&mut self.property_keys, key.to_string());
        }
    }

    /// The access plan: each part's mode and what is read of it, the sets in
    /// ascending order.
    pub fn into_plan(self) -> (r: MessageAccessPlan)
        ensures
            plan_matches(r, self@),
    {
        let source_mode = self.source_mode();
        let topic_mode = self.topic_mode();
        let payload_mode = self.payload_mode();
        let raw_payload_mode = self.raw_payload_mode();
        let metadata_mode = self.metadata_mode();
        let properties_mode = self.properties_mode();
        let ghost model = self@;
        let AccessPlanBuilder {
            source_full: _,
            source_name,
            source_version,
            topic_full: _,
            topic_raw,
            topic_levels,
            topic_level_indexes,
            payload_full: _,
            payload_paths,
            raw_payload_full: _,
            raw_payload_ranges,
            metadata_full: _,
            metadata_pkid,
            metadata_qos,
            metadata_retain,
            metadata_dup,
            properties_full: _,
            property_keys,
        } = self;
        let mut paths: Vec<JsonPath> = Vec::new();
        let mut source_paths = payload_paths;
        let ghost all_paths = paths_view(source_paths@);
        let mut i: usize = 0;
        let n = source_paths.len();
        while i < n
            invariant
                n == all_paths.len(),
                i <= n,
                paths@.len() == i,
                forall|j: int| 0 <= j < i ==> json_path_view(#[trigger] paths@[j]) == all_paths[j],
                source_paths@.len() == n - i,
                forall|j: int| 0 <= j < n - i ==> path_view(#[trigger] source_paths@[j]@) == all_paths[i + j],
            decreases n - i,
        {
            let segments_in = source_paths.remove(0);
            let ghost seg_model = path_view(segments_in@);
            let mut segments: Vec<JsonPathSegment> = Vec::new();
            let mut rest = segments_in;
            let m = rest.len();
            let mut k: usize = 0;
            while k < m
                invariant
                    m == seg_model.len(),
                    k <= m,
                    segments@.len() == k,
                    forall|t: int| 0 <= t < k ==> json_segment_view(#[trigger] segments@[t]) == Some(seg_model[t]),
                    rest@.len() == m - k,
                    forall|t: int| 0 <= t < m - k ==> (#[trigger] rest@[t])@ == seg_model[k + t],
                decreases m - k,
            {
                let s = rest.remove(0);
                segments.push(json_path_segment(s));
                k = k + 1;
            }
            let path = JsonPath { segments };
            assert(json_path_view(path) =~= seg_model);
            paths.push(path);
            i = i + 1;
        }
        let mut ranges: Vec<ByteRange> = Vec::new();
        let mut j: usize = 0;
        while j < raw_payload_ranges.len()
            invariant
                j <= raw_payload_ranges@.len(),
                ranges@.len() == j,
                forall|t: int| 0 <= t < j ==> ((#[trigger] ranges@[t]).offset, ranges@[t].length)
                    == raw_payload_ranges@[t],
            decreases raw_payload_ranges.len() - j,
        {
            let (offset, length) = raw_payload_ranges[j];
            ranges.push(ByteRange { offset, length });
            j = j + 1;
        }
        let r = MessageAccessPlan {
            source: Some(SourceAccess { mode: source_mode, name: source_name, version: source_version }),
            topic: Some(
                TopicAccess {
                    mode: topic_mode,
                    raw: topic_raw,
                    levels: topic_levels,
                    level_indexes: topic_level_indexes,
                },
            ),
            payload: Some(JsonAccess { mode: payload_mode, paths }),
            raw_payload: Some(RawPayloadAccess { mode: raw_payload_mode, ranges }),
            metadata: Some(
                MetadataAccess {
                    mode: metadata_mode,
                    pkid: metadata_pkid,
                    qos: metadata_qos,
                    retain: metadata_retain,
                    dup: metadata_dup,
                },
            ),
            properties: Some(PropertiesAccess { mode: properties_mode, keys: property_keys }),
        };
        proof {
            let p = r.payload.unwrap();
            assert(p.paths@.map_values(|q: JsonPath| json_path_view(q)) =~= model.payload_paths);
            let w = r.raw_payload.unwrap();
            assert(w.ranges@.map_values(|g: ByteRange| (g.offset, g.length)) =~= model.raw_payload_ranges);
        }
        r
    }
}

} // verus!
