use vstd::prelude::*;

use crate::error::{message_with, PartitionError};
use crate::filter::{
    compiled_as, compile_failure, field_names, filter_compiles, Filter, PartitionFilter,
    PartitionSchema,
};
use crate::text::{hive_segment_value, hive_value, split_char, split_spec, views};
use crate::value::{cast_spec, cast_text, compare_spec, compare_values, PartitionType, PartitionValue, ValueView};

verus! {

/// std's `Utf8Error`, the error of `PercentDecode::decode_utf8`, carried as an opaque value.
#[verifier::external_type_specification]
#[verifier::external_body]
pub struct ExUtf8Error(std::str::Utf8Error);

/// What percent-decoding a string and reading the bytes as UTF-8 gives (`None`: the
/// bytes are not UTF-8).
pub uninterp spec fn percent_decoded(s: Seq<char>) -> Option<Seq<char>>;

/// Relies on `percent_encoding::percent_decode` followed by `PercentDecode::decode_utf8`:
/// the decoded text, or the UTF-8 error of the decoded bytes.
#[verifier::external_body]
fn percent_decode_utf8(s: &str) -> (r: Result<String, std::str::Utf8Error>)
    ensures
        match r {
            Ok(d) => percent_decoded(s@) == Some(d@),
            Err(_) => percent_decoded(s@) is None,
        },
{
    match percent_encoding::percent_decode(s.as_bytes()).decode_utf8() {
        Ok(d) => Ok(d.into_owned()),
        Err(e) => Err(e),
    }
}

/// The fail-open policy: an outcome that could not be decided includes.
pub fn evaluate_or_include(outcome: Option<bool>) -> (r: bool)
    ensures
        r == (outcome != Some(false)),
{
    match outcome {
        Some(b) => b,
        None => true,
    }
}

/// The typed values parsed from one partition path, by field name, in schema order.
#[derive(Debug, Clone)]
pub struct PartitionSegments {
    pub entries: Vec<(String, PartitionValue)>,
}

impl View for PartitionSegments {
    type V = Seq<(Seq<char>, ValueView)>;

    open spec fn view(&self) -> Seq<(Seq<char>, ValueView)> {
        self.entries@.map_values(|e: (String, PartitionValue)| (e.0@, e.1@))
    }
}

/// The names of a segment view.
pub open spec fn segment_names(segs: Seq<(Seq<char>, ValueView)>) -> Seq<Seq<char>> {
    segs.map_values(|e: (Seq<char>, ValueView)| e.0)
}

impl PartitionSegments {
    /// The number of parsed segments.
    pub fn len(&self) -> (r: usize)
        ensures
            r == self@.len(),
    {
        self.entries.len()
    }

    /// The position of the first segment named `key`.
    pub fn index_of(&self, key: &str) -> (r: Option<usize>)
        ensures
            match r {
                Some(i) => i < self@.len() && segment_names(self@).index_of_first(key@) == Some(
                    i as int,
                ),
                None => segment_names(self@).index_of_first(key@) is None,
            },
    {
        let ghost names = segment_names(self@);
        let mut i: usize = 0;
        while i < self.entries.len()
            invariant
                names == segment_names(self@),
                names.len() == self.entries@.len(),
                i <= self.entries@.len(),
                forall|j: int| 0 <= j < i ==> names[j] != key@,
            decreases self.entries@.len() - i,
        {
            if crate::text::str_eq(self.entries[i].0.as_str(), key) {
                assert(names[i as int] == key@);
                proof {
                    names.index_of_first_ensures(key@);
                    let idx = names.index_of_first(key@)->Some_0;
                    if idx < i {
                        assert(names[idx] != key@);
                    }
                    if idx > i {
                        assert(names[i as int] != key@);
                    }
                }
                return Some(i);
            }
            i = i + 1;
        }
        proof {
            names.index_of_first_ensures(key@);
            if names.contains(key@) {
                let k = choose|k: int| 0 <= k < names.len() && names[k] == key@;
                assert(names[k] != key@);
            }
        }
        None
    }

    /// Whether a segment is named `key`.
    pub fn contains_key(&self, key: &str) -> (r: bool)
        ensures
            r == segment_names(self@).contains(key@),
    {
        let r = self.index_of(key);
        proof {
            segment_names(self@).index_of_first_ensures(key@);
        }
        r.is_some()
    }
}

/// Decides, from partition filters, whether a partition directory can be skipped.
#[derive(Debug, Clone)]
pub struct PartitionPruner {
    pub schema: PartitionSchema,
    pub is_hive_style: bool,
    pub is_url_encoded: bool,
    pub and_filters: Vec<PartitionFilter>,
}

/// The raw value that a path segment holds for a field.
pub open spec fn raw_value(part: Seq<char>, name: Seq<char>, is_hive_style: bool) -> Option<
    Seq<char>,
> {
    if is_hive_style {
        hive_value(part, name)
    } else {
        Some(part)
    }
}

/// Whether the `i`-th part holds a value that casts into the `i`-th field's type.
pub open spec fn segment_fine(
    parts: Seq<Seq<char>>,
    fields: Seq<(Seq<char>, PartitionType)>,
    is_hive_style: bool,
    i: int,
) -> bool {
    match raw_value(parts[i], fields[i].0, is_hive_style) {
        Some(raw) => cast_spec(raw, fields[i].1) is Some,
        None => false,
    }
}

/// The typed value of the `i`-th part.
pub open spec fn segment_entry(
    parts: Seq<Seq<char>>,
    fields: Seq<(Seq<char>, PartitionType)>,
    is_hive_style: bool,
    i: int,
) -> (Seq<char>, ValueView) {
    (fields[i].0, cast_spec(raw_value(parts[i], fields[i].0, is_hive_style)->Some_0, fields[i].1)->Some_0)
}

/// Whether part `i` is the first whose value does not parse.
pub open spec fn first_bad_segment(
    parts: Seq<Seq<char>>,
    fields: Seq<(Seq<char>, PartitionType)>,
    is_hive_style: bool,
    i: int,
) -> bool {
    &&& 0 <= i < fields.len()
    &&& !segment_fine(parts, fields, is_hive_style, i)
    &&& forall|j: int| 0 <= j < i ==> segment_fine(parts, fields, is_hive_style, j)
}

/// The segments parsed from the parts of a path, when every part parses.
pub open spec fn parse_parts(
    parts: Seq<Seq<char>>,
    fields: Seq<(Seq<char>, PartitionType)>,
    is_hive_style: bool,
) -> Option<Seq<(Seq<char>, ValueView)>> {
    if parts.len() == fields.len() && forall|i: int|
        0 <= i < fields.len() ==> segment_fine(parts, fields, is_hive_style, i) {
        Some(Seq::new(fields.len(), |i: int| segment_entry(parts, fields, is_hive_style, i)))
    } else {
        None
    }
}

/// Whether a filter lets the parsed segments through: a field that is absent, or a
/// comparison that cannot be made, includes.
pub open spec fn admits(f: PartitionFilter, segs: Seq<(Seq<char>, ValueView)>) -> bool {
    match segment_names(segs).index_of_first(f.field.name@) {
        Some(i) => compare_spec(f.operator, segs[i].1, f.value@) != Some(false),
        None => true,
    }
}

impl PartitionPruner {
    /// The path as the pruner reads it: percent-decoded when paths are URL-encoded.
    pub open spec fn decoded(&self, path: Seq<char>) -> Option<Seq<char>> {
        if self.is_url_encoded {
            percent_decoded(path)
        } else {
            Some(path)
        }
    }

    /// The segments of a path, when it parses.
    pub open spec fn parsed(&self, path: Seq<char>) -> Option<Seq<(Seq<char>, ValueView)>> {
        match self.decoded(path) {
            Some(d) => parse_parts(split_spec(d, '/'), self.schema@, self.is_hive_style),
            None => None,
        }
    }

    /// Whether the partition at `path` is kept: a path that does not parse is kept;
    /// else it is kept when every filter admits its segments.
    pub open spec fn includes(&self, path: Seq<char>) -> bool {
        match self.parsed(path) {
            Some(segs) => self.admits_all(segs),
            None => true,
        }
    }

    /// Every filter admits the segments.
    pub open spec fn admits_all(&self, segs: Seq<(Seq<char>, ValueView)>) -> bool {
        forall|k: int| 0 <= k < self.and_filters@.len() ==> admits(#[trigger] self.and_filters@[k], segs)
    }

    /// Compiles every filter against the schema; fails with the first filter that
    /// does not compile.
    pub fn new(
        and_filters: &[Filter],
        partition_schema: &PartitionSchema,
        is_hive_style: bool,
        is_url_encoded: bool,
    ) -> (r: Result<PartitionPruner, PartitionError>)
        ensures
            r is Ok <==> forall|k: int|
                0 <= k < and_filters@.len() ==> filter_compiles(
                    #[trigger] and_filters@[k],
                    partition_schema@,
                ),
            r matches Ok(p) ==> {
                &&& p.schema@ == partition_schema@
                &&& p.is_hive_style == is_hive_style
                &&& p.is_url_encoded == is_url_encoded
                &&& p.and_filters@.len() == and_filters@.len()
                &&& forall|k: int|
                    0 <= k < and_filters@.len() ==> compiled_as(
                        #[trigger] p.and_filters@[k],
                        and_filters@[k],
                        partition_schema@,
                    ) && p.and_filters@[k].well_typed()
            },
            r matches Err(e) ==> exists|k: int|
                {
                    &&& 0 <= k < and_filters@.len()
                    &&& !filter_compiles(#[trigger] and_filters@[k], partition_schema@)
                    &&& compile_failure(e, and_filters@[k], partition_schema@)
                    &&& forall|j: int|
                        0 <= j < k ==> filter_compiles(and_filters@[j], partition_schema@)
                },
    {
        let mut compiled: Vec<PartitionFilter> = Vec::new();
        let mut i: usize = 0;
        while i < and_filters.len()
            invariant
                i <= and_filters@.len(),
                compiled@.len() == i,
                forall|j: int| 0 <= j < i ==> filter_compiles(and_filters@[j], partition_schema@),
                forall|j: int|
                    0 <= j < i ==> compiled_as(
                        #[trigger] compiled@[j],
                        and_filters@[j],
                        partition_schema@,
                    ) && compiled@[j].well_typed(),
            decreases and_filters@.len() - i,
        {
            match PartitionFilter::compile(&and_filters[i], partition_schema) {
                Ok(pf) => compiled.push(pf),
                Err(e) => {
                    assert(!filter_compiles(and_filters@[i as int], partition_schema@));
                    return Err(e);
                },
            }
            i = i + 1;
        }
        Ok(
            PartitionPruner {
                schema: partition_schema.copy(),
                is_hive_style,
                is_url_encoded,
                and_filters: compiled,
            },
        )
    }

    /// A pruner with no schema and no filters: it keeps every partition.
    pub fn empty() -> (r: PartitionPruner)
        ensures
            r.schema@.len() == 0,
            !r.is_hive_style,
            !r.is_url_encoded,
            r.and_filters@.len() == 0,
    {
        PartitionPruner {
            schema: PartitionSchema::empty(),
            is_hive_style: false,
            is_url_encoded: false,
            and_filters: Vec::new(),
        }
    }

    /// Whether the pruner has no filters.
    pub fn is_empty(&self) -> (r: bool)
        ensures
            r == (self.and_filters@.len() == 0),
    {
        self.and_filters.len() == 0
    }

    /// Parses a partition path into one typed value per schema field.
    pub fn parse_segments(&self, partition_path: &str) -> (r: Result<
        PartitionSegments,
        PartitionError,
    >)
        ensures
            r is Ok <==> self.parsed(partition_path@) is Some,
            r matches Ok(segs) ==> self.parsed(partition_path@) == Some(segs@),
            r matches Err(e) ==> match self.decoded(partition_path@) {
                None => e is InvalidPartitionPath,
                Some(d) => self.parse_decoded_failure(e, d),
            },
    {
        let path: String = if self.is_url_encoded {
            match percent_decode_utf8(partition_path) {
                Ok(d) => d,
                Err(_) => {
                    return Err(
                        PartitionError::InvalidPartitionPath(
                            message_with("Partition path cannot be decoded: ", partition_path),
                        ),
                    );
                },
            }
        } else {
            partition_path.to_owned()
        };
        self.parse_decoded_segments(path.as_str())
    }

    /// Whether `e` is the error that parsing the decoded path `d` raises.
    pub open spec fn parse_decoded_failure(&self, e: PartitionError, d: Seq<char>) -> bool {
        let parts = split_spec(d, '/');
        if parts.len() != self.schema@.len() {
            e is InvalidPartitionPath
        } else {
            exists|i: int|
                #[trigger] first_bad_segment(parts, self.schema@, self.is_hive_style, i)
                    && if raw_value(parts[i], self.schema@[i].0, self.is_hive_style) is None {
                    e is InvalidPartitionPath
                } else {
                    e is UnsupportedCast
                }
        }
    }

    /// Parses an already decoded partition path into one typed value per schema field.
    pub fn parse_decoded_segments(&self, path: &str) -> (r: Result<
        PartitionSegments,
        PartitionError,
    >)
        ensures
            r is Ok <==> parse_parts(split_spec(path@, '/'), self.schema@, self.is_hive_style) is Some,
            r matches Ok(segs) ==> parse_parts(split_spec(path@, '/'), self.schema@, self.is_hive_style)
                == Some(segs@),
            r matches Err(e) ==> self.parse_decoded_failure(e, path@),
    {
        let ghost d = path@;
        let parts = split_char(path, '/');
        let ghost pv = views(parts@);
        let ghost fields = self.schema@;
        let n = self.schema.fields.len();
        if parts.len() != n {
            return Err(
                PartitionError::InvalidPartitionPath(
                    message_with(
                        "Partition path should have one part per partition field but got ",
                        path,
                    ),
                ),
            );
        }
        let mut entries: Vec<(String, PartitionValue)> = Vec::new();
        let mut i: usize = 0;
        while i < n
            invariant
                n == self.schema.fields@.len(),
                fields == self.schema@,
                fields.len() == n,
                pv == views(parts@),
                pv == split_spec(d, '/'),
                d == path@,
                                pv.len() == n,
                i <= n,
                entries@.len() == i,
                forall|j: int| 0 <= j < i ==> segment_fine(pv, fields, self.is_hive_style, j),
                forall|j: int|
                    0 <= j < i ==> (#[trigger] entries@[j]).0@ == segment_entry(
                        pv,
                        fields,
                        self.is_hive_style,
                        j,
                    ).0 && entries@[j].1@ == segment_entry(pv, fields, self.is_hive_style, j).1,
            decreases n - i,
        {
            let field = &self.schema.fields[i];
            let part = parts[i].as_str();
            assert(fields[i as int] == field@);
            assert(pv[i as int] == part@);
            let raw: String = if self.is_hive_style {
                match hive_segment_value(part, field.name.as_str()) {
                    Some(v) => v,
                    None => {
                        assert(!segment_fine(pv, fields, self.is_hive_style, i as int));
                        assert(first_bad_segment(pv, fields, self.is_hive_style, i as int));
                        assert(parse_parts(pv, fields, self.is_hive_style) is None);
                        return Err(
                            PartitionError::InvalidPartitionPath(
                                message_with("Partition path segment does not match its field: ", part),
                            ),
                        );
                    },
                }
            } else {
                part.to_owned()
            };
            assert(raw_value(pv[i as int], fields[i as int].0, self.is_hive_style) == Some(raw@));
            match cast_text(raw.as_str(), field.data_type) {
                Some(v) => {
                    entries.push((field.name.clone(), v));
                },
                None => {
                    assert(!segment_fine(pv, fields, self.is_hive_style, i as int));
                    assert(first_bad_segment(pv, fields, self.is_hive_style, i as int));
                    assert(parse_parts(pv, fields, self.is_hive_style) is None);
                    return Err(
                        PartitionError::UnsupportedCast(
                            message_with("Unable to cast partition value: ", raw.as_str()),
                        ),
                    );
                },
            }
            i = i + 1;
        }
        let segs = PartitionSegments { entries };
        assert(segs@ =~= Seq::new(
            fields.len(),
            |i: int| segment_entry(pv, fields, self.is_hive_style, i),
        ));
        Ok(segs)
    }

    /// Whether the partition at `partition_path` may hold matching rows. A path that
    /// does not parse, a filter whose field is not in the path and a comparison that
    /// cannot be made all include.
    pub fn should_include(&self, partition_path: &str) -> (r: bool)
        ensures
            r == self.includes(partition_path@),
    {
        match self.parse_segments(partition_path) {
            Ok(segments) => self.include_segments(&segments),
            Err(_) => true,
        }
    }

    /// Whether every filter admits the parsed segments.
    pub fn include_segments(&self, segments: &PartitionSegments) -> (r: bool)
        ensures
            r == self.admits_all(segments@),
    {
        let mut k: usize = 0;
        while k < self.and_filters.len()
            invariant
                k <= self.and_filters@.len(),
                forall|j: int| 0 <= j < k ==> admits(#[trigger] self.and_filters@[j], segments@),
            decreases self.and_filters@.len() - k,
        {
            let filter = &self.and_filters[k];
            let keep = match segments.index_of(filter.field.name.as_str()) {
                Some(i) => {
                    assert(segments@[i as int].1 == segments.entries@[i as int].1@);
                    evaluate_or_include(
                        compare_values(filter.operator, &segments.entries[i].1, &filter.value),
                    )
                },
                None => true,
            };
            if !keep {
                return false;
            }
            k = k + 1;
        }
        true
    }
}

/// A pruner without filters keeps every partition path, whatever its text.
pub proof fn lemma_no_filters_includes_all(p: PartitionPruner, path: Seq<char>)
    requires
        p.and_filters@.len() == 0,
    ensures
        p.includes(path),
{
}

/// A path whose number of `/`-separated parts differs from the number of schema
/// fields is kept.
pub proof fn lemma_wrong_segment_count_includes(p: PartitionPruner, path: Seq<char>)
    requires
        p.decoded(path) matches Some(d) && split_spec(d, '/').len() != p.schema@.len(),
    ensures
        p.parsed(path) is None,
        p.includes(path),
{
}

/// A URL-encoded path parses as its decoded text does under the same schema and
/// layout without URL encoding, and is kept or pruned alike by the same filters.
pub proof fn lemma_url_encoded_parses_as_decoded(
    encoded: PartitionPruner,
    plain: PartitionPruner,
    path: Seq<char>,
    decoded_path: Seq<char>,
)
    requires
        encoded.is_url_encoded,
        !plain.is_url_encoded,
        encoded.is_hive_style == plain.is_hive_style,
        encoded.schema@ == plain.schema@,
        percent_decoded(path) == Some(decoded_path),
    ensures
        encoded.parsed(path) == plain.parsed(decoded_path),
        encoded.and_filters@ == plain.and_filters@ ==> encoded.includes(path) == plain.includes(
            decoded_path,
        ),
{
}

/// The include decision depends on the pruner and the path alone: two calls of
/// `should_include` on the same pruner and path give the same answer.
pub proof fn lemma_should_include_repeatable(
    p: PartitionPruner,
    path: Seq<char>,
    first: bool,
    second: bool,
)
    requires
        first == p.includes(path),
        second == p.includes(path),
    ensures
        first == second,
{
}

} // verus!
