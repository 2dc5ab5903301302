//! The annotation extractor: reads an annotated variant file line by line,
//! finds the declaration of the annotation fields, checks every data line
//! against it and gives one tab-separated row per variant.

use crate::errors::{failure_model, ErrorModel, PipelineError};
use crate::text::{
    all_trimmed, join, joined, lacks, lemma_split_joined, lemma_split_pieces, lemma_trimmed_lacks,
    split, split_on, split_trimmed, starts_with, texts,
};
use vstd::prelude::*;

verus! {

/// `regex::Regex`, a compiled regular expression. Nothing inside it is
/// visible here; `plain_pattern` names the pattern text it holds.
#[verifier::external_type_specification]
#[verifier::external_body]
pub struct ExRegex(regex::Regex);

/// The pattern text of an expression that `regex::Regex::new` compiled,
/// which is with the default options; `None` for an expression that was
/// made in another way.
pub uninterp spec fn plain_pattern(re: regex::Regex) -> Option<Seq<char>>;

/// Whether `regex::Regex::new` accepts the pattern text: it is valid, and
/// what it compiles to stays within the default size limit.
pub uninterp spec fn pattern_compiles(pattern: Seq<char>) -> bool;

/// What the expression with the given pattern text captures in `haystack`:
/// `None` where it matches nowhere; otherwise, for its leftmost match, the
/// text of group `group`, or `None` inside where the pattern has no such
/// group or the group took no part in the match.
pub uninterp spec fn captured_group(pattern: Seq<char>, haystack: Seq<char>, group: nat) -> Option<
    Option<Seq<char>>,
>;

/// A capture with its text as a sequence of characters.
pub open spec fn capture_model(capture: Option<Option<String>>) -> Option<Option<Seq<char>>> {
    match capture {
        Some(Some(s)) => Some(Some(s@)),
        Some(None) => Some(None),
        None => None,
    }
}

/// `regex::Regex::new`, with `None` where it refuses the pattern. Claimed:
/// whether it accepts a pattern depends on the pattern text alone, and is
/// named `pattern_compiles`; an expression that it compiled has the default
/// options and keeps the pattern text it was compiled from. Nothing is
/// claimed of which patterns it accepts.
#[verifier::external_body]
fn compile(pattern: &str) -> (r: Option<regex::Regex>)
    ensures
        r is Some <==> pattern_compiles(pattern@),
        r matches Some(re) ==> plain_pattern(re) == Some(pattern@),
{
    match regex::Regex::new(pattern) {
        Ok(re) => Some(re),
        Err(_) => None,
    }
}

/// `regex::Regex::captures`, then `regex::Captures::get` on the match.
/// Claimed: for an expression with the default options the result is
/// determined by the pattern text, the haystack and the group's number, and
/// is named `captured_group`.
#[verifier::external_body]
fn capture_group(re: &regex::Regex, haystack: &str, group: usize) -> (r: Option<Option<String>>)
    requires
        plain_pattern(*re) is Some,
    ensures
        capture_model(r) == captured_group(plain_pattern(*re)->Some_0, haystack@, group as nat),
{
    match re.captures(haystack) {
        Some(caps) => Some(
            match caps.get(group) {
                Some(m) => Some(m.as_str().to_string()),
                None => None,
            },
        ),
        None => None,
    }
}

/// What one line of an annotated file says.
#[derive(Debug, PartialEq, Eq)]
pub enum VcfRecord {
    /// The line declares the annotation fields.
    Header(Vec<String>),
    /// The line is a variant; these are the values of its annotation.
    Record(Vec<String>),
    /// The line says nothing about annotations.
    Nothing,
}

/// A `VcfRecord` with its texts as sequences of characters.
pub enum RecordModel {
    Header(Seq<Seq<char>>),
    Record(Seq<Seq<char>>),
    Nothing,
}

impl View for VcfRecord {
    type V = RecordModel;

    open spec fn view(&self) -> RecordModel {
        match *self {
            VcfRecord::Header(fields) => RecordModel::Header(texts(fields@)),
            VcfRecord::Record(values) => RecordModel::Record(texts(values@)),
            VcfRecord::Nothing => RecordModel::Nothing,
        }
    }
}

/// A parsed line, or the reason it could not be parsed, as models.
pub open spec fn parsed_model(r: Result<VcfRecord, PipelineError>) -> Result<
    RecordModel,
    ErrorModel,
> {
    match r {
        Ok(record) => Ok(record@),
        Err(e) => Err(e@),
    }
}

/// The pattern that recognises the declaration of the annotation fields:
/// the quoted phrase, with the field list between the inner quotes as
/// group 1.
pub open spec fn description_pattern() -> Seq<char> {
    "\"Functional annotations: '([^']*)'"@
}

/// Columns are counted from zero; this one holds the annotation.
pub const ANNOTATION_COLUMN: usize = 7;

/// The meaning of `line`, given what the description pattern captured in
/// it. A metadata line (it begins with `##`) declares the fields where the
/// pattern matched, and says nothing otherwise. A line that is no comment
/// (it does not begin with `#`) is a variant: its annotation column, split
/// at `|`, gives the values. Any other line says nothing.
pub open spec fn line_record(line: Seq<char>, capture: Option<Option<Seq<char>>>) -> Result<
    RecordModel,
    ErrorModel,
> {
    if "##"@.is_prefix_of(line) {
        match capture {
            Some(Some(content)) => Ok(RecordModel::Header(all_trimmed(split_on(content, '|')))),
            Some(None) => Err(ErrorModel::DescriptionNotCaptured),
            None => Ok(RecordModel::Nothing),
        }
    } else if !"#"@.is_prefix_of(line) {
        let columns = split_on(line, '\t');
        if columns.len() > ANNOTATION_COLUMN {
            Ok(RecordModel::Record(all_trimmed(split_on(columns[ANNOTATION_COLUMN as int], '|'))))
        } else {
            Err(ErrorModel::AnnotationColumnMissing)
        }
    } else {
        Ok(RecordModel::Nothing)
    }
}

/// The row written for a variant splits at the tabs into the variant's
/// values again: it has as many columns as the annotation has values, and
/// so as many as the schema has fields.
pub proof fn lemma_row_splits_into_values(
    line: Seq<char>,
    capture: Option<Option<Seq<char>>>,
    values: Seq<Seq<char>>,
)
    requires
        line_record(line, capture) == Ok::<RecordModel, ErrorModel>(RecordModel::Record(values)),
    ensures
        split_on(joined(values, "\t"@), '\t') == values,
{
    let columns = split_on(line, '\t');
    lemma_split_pieces(line, '\t', '\t');
    let payload = columns[ANNOTATION_COLUMN as int];
    let pieces = split_on(payload, '|');
    lemma_split_pieces(payload, '|', '\t');
    assert(values == all_trimmed(pieces));
    assert forall|i: int| 0 <= i < values.len() implies lacks(#[trigger] values[i], '\t') by {
        assert(lacks(pieces[i], '\t'));
        lemma_trimmed_lacks(pieces[i], '\t');
    }
    reveal_strlit("\t");
    assert("\t"@ =~= seq!['\t']);
    lemma_split_joined(values, '\t');
}

/// The meaning of `line`, given what the description pattern captured in
/// it.
pub fn record_of_line(line: &str, capture: Option<Option<String>>) -> (r: Result<
    VcfRecord,
    PipelineError,
>)
    ensures
        parsed_model(r) == line_record(line@, capture_model(capture)),
{
    if starts_with(line, "##") {
        match capture {
            Some(Some(content)) => Ok(VcfRecord::Header(split_trimmed(content.as_str(), '|'))),
            Some(None) => Err(PipelineError::DescriptionNotCaptured),
            None => Ok(VcfRecord::Nothing),
        }
    } else if !starts_with(line, "#") {
        let columns = split(line, '\t');
        if columns.len() > ANNOTATION_COLUMN {
            Ok(VcfRecord::Record(split_trimmed(columns[ANNOTATION_COLUMN].as_str(), '|')))
        } else {
            Err(PipelineError::AnnotationColumnMissing)
        }
    } else {
        Ok(VcfRecord::Nothing)
    }
}

/// The meaning of `line` under an expression compiled from the description
/// pattern.
fn parse_with(re: &regex::Regex, line: &str) -> (r: Result<VcfRecord, PipelineError>)
    requires
        plain_pattern(*re) == Some(description_pattern()),
    ensures
        parsed_model(r) == line_record(line@, captured_group(description_pattern(), line@, 1)),
{
    let capture = capture_group(re, line, 1);
    record_of_line(line, capture)
}

/// The meaning of one line of an annotated file, where the description
/// pattern compiles; `DescriptionPatternRejected` where it does not,
/// whatever the line.
pub fn parse_vcf_line(line: &str) -> (r: Result<VcfRecord, PipelineError>)
    ensures
        pattern_compiles(description_pattern()) ==> parsed_model(r) == line_record(
            line@,
            captured_group(description_pattern(), line@, 1),
        ),
        !pattern_compiles(description_pattern()) ==> parsed_model(r) == Err::<
            RecordModel,
            ErrorModel,
        >(ErrorModel::DescriptionPatternRejected),
{
    match compile("\"Functional annotations: '([^']*)'") {
        Some(re) => parse_with(&re, line),
        None => Err(PipelineError::DescriptionPatternRejected),
    }
}

/// The extractor's state: the declared fields once a declaration was seen,
/// and how many lines were read.
pub struct ExtractorModel {
    pub schema: Option<Seq<Seq<char>>>,
    pub lines_seen: nat,
}

/// What the extractor does with one parsed line: the state after it, and
/// the row to write, if any, or the failure that ends the stream.
///
/// The first declaration fixes the schema and gives the header row; a later
/// one changes nothing. A variant before any declaration fails; a variant
/// with another number of values than the schema fails with the line's
/// number, counted from one; any other variant gives its values as a row.
pub open spec fn step(state: ExtractorModel, record: Result<RecordModel, ErrorModel>) -> (
    ExtractorModel,
    Result<Option<Seq<char>>, ErrorModel>,
) {
    let line = state.lines_seen + 1;
    let counted = ExtractorModel { schema: state.schema, lines_seen: line };
    match record {
        Err(e) => (counted, Err(e)),
        Ok(RecordModel::Nothing) => (counted, Ok(None)),
        Ok(RecordModel::Header(fields)) => match state.schema {
            None => (
                ExtractorModel { schema: Some(fields), lines_seen: line },
                Ok(Some(joined(fields, "\t"@))),
            ),
            Some(_) => (counted, Ok(None)),
        },
        Ok(RecordModel::Record(values)) => match state.schema {
            None => (counted, Err(ErrorModel::SchemaNotYetEstablished)),
            Some(fields) => if fields.len() == values.len() {
                (counted, Ok(Some(joined(values, "\t"@))))
            } else {
                (
                    counted,
                    Err(
                        ErrorModel::SchemaMismatch {
                            line: line as u64,
                            expected: fields.len() as usize,
                            actual: values.len() as usize,
                        },
                    ),
                )
            },
        },
    }
}

/// What was fed so far: the state reached, the rows written, and the
/// failure that ended the stream, if one did.
pub struct RunModel {
    pub state: ExtractorModel,
    pub rows: Seq<Seq<char>>,
    pub error: Option<ErrorModel>,
}

/// Nothing fed yet.
pub open spec fn start() -> RunModel {
    RunModel {
        state: ExtractorModel { schema: None, lines_seen: 0 },
        rows: Seq::empty(),
        error: None,
    }
}

/// One more parsed line after `before`. After a failure nothing changes.
pub open spec fn advance(before: RunModel, record: Result<RecordModel, ErrorModel>) -> RunModel {
    if before.error is Some {
        before
    } else {
        let (state, out) = step(before.state, record);
        match out {
            Ok(Some(row)) => RunModel { state, rows: before.rows.push(row), error: None },
            Ok(None) => RunModel { state, rows: before.rows, error: None },
            Err(e) => RunModel { state, rows: before.rows, error: Some(e) },
        }
    }
}

/// The whole stream of parsed lines, fed in order.
pub open spec fn run(records: Seq<Result<RecordModel, ErrorModel>>) -> RunModel
    decreases records.len(),
{
    if records.len() == 0 {
        start()
    } else {
        advance(run(records.drop_last()), records.last())
    }
}

/// The parsed lines of a file, under the description pattern.
pub open spec fn records_of(lines: Seq<Seq<char>>) -> Seq<Result<RecordModel, ErrorModel>> {
    Seq::new(
        lines.len(),
        |i: int| line_record(lines[i], captured_group(description_pattern(), lines[i], 1)),
    )
}

/// The declared fields, if any, as sequences of characters.
pub open spec fn schema_model(schema: Option<Vec<String>>) -> Option<Seq<Seq<char>>> {
    match schema {
        Some(fields) => Some(texts(fields@)),
        None => None,
    }
}

/// A step's output as models.
pub open spec fn output_model(r: Result<Option<String>, PipelineError>) -> Result<
    Option<Seq<char>>,
    ErrorModel,
> {
    match r {
        Ok(Some(row)) => Ok(Some(row@)),
        Ok(None) => Ok(None),
        Err(e) => Err(e@),
    }
}

/// The streaming extractor. It holds the schema and the line count, never
/// the file.
pub struct AnnotationExtractor {
    re: regex::Regex,
    schema: Option<Vec<String>>,
    lines_seen: u64,
}

impl View for AnnotationExtractor {
    type V = ExtractorModel;

    closed spec fn view(&self) -> ExtractorModel {
        ExtractorModel { schema: schema_model(self.schema), lines_seen: self.lines_seen as nat }
    }
}

impl AnnotationExtractor {
    #[verifier::type_invariant]
    spec fn holds_description_pattern(&self) -> bool {
        plain_pattern(self.re) == Some(description_pattern())
    }

    /// An extractor that awaits the schema, where the description pattern
    /// compiles; `DescriptionPatternRejected` where it does not.
    pub fn new() -> (r: Result<Self, PipelineError>)
        ensures
            r is Ok <==> pattern_compiles(description_pattern()),
            r is Ok ==> r->Ok_0@ == start().state,
            r is Err ==> r->Err_0@ == ErrorModel::DescriptionPatternRejected,
    {
        match compile("\"Functional annotations: '([^']*)'") {
            Some(re) => Ok(AnnotationExtractor { re, schema: None, lines_seen: 0 }),
            None => Err(PipelineError::DescriptionPatternRejected),
        }
    }

    /// Whether a declaration of the annotation fields was seen.
    pub fn is_emitting(&self) -> (r: bool)
        ensures
            r == self@.schema is Some,
    {
        self.schema.is_some()
    }

    /// How many lines were taken so far.
    pub fn lines_seen(&self) -> (r: u64)
        ensures
            r == self@.lines_seen,
    {
        self.lines_seen
    }

    /// Takes one parsed line: gives the row to write, if any, or the
    /// failure that ends the stream.
    pub fn feed_record(&mut self, record: Result<VcfRecord, PipelineError>) -> (r: Result<
        Option<String>,
        PipelineError,
    >)
        requires
            old(self)@.lines_seen < u64::MAX,
        ensures
            (final(self)@, output_model(r)) == step(old(self)@, parsed_model(record)),
    {
        proof {
            use_type_invariant(&*self);
        }
        self.lines_seen = self.lines_seen + 1;
        match record {
            Err(e) => Err(e),
            Ok(VcfRecord::Nothing) => Ok(None),
            Ok(VcfRecord::Header(fields)) => {
                if self.schema.is_none() {
                    let row = join(&fields, "\t");
                    self.schema = Some(fields);
                    Ok(Some(row))
                } else {
                    Ok(None)
                }
            },
            Ok(VcfRecord::Record(values)) => {
                match &self.schema {
                    None => Err(PipelineError::SchemaNotYetEstablished),
                    Some(fields) => {
                        if fields.len() == values.len() {
                            Ok(Some(join(&values, "\t")))
                        } else {
                            Err(
                                PipelineError::SchemaMismatch {
                                    line: self.lines_seen,
                                    expected: fields.len(),
                                    actual: values.len(),
                                },
                            )
                        }
                    },
                }
            },
        }
    }

    /// Takes one line of the file: gives the row to write, if any, or the
    /// failure that ends the stream.
    pub fn feed_line(&mut self, line: &str) -> (r: Result<Option<String>, PipelineError>)
        requires
            old(self)@.lines_seen < u64::MAX,
        ensures
            (final(self)@, output_model(r)) == step(
                old(self)@,
                line_record(line@, captured_group(description_pattern(), line@, 1)),
            ),
    {
        proof {
            use_type_invariant(&*self);
        }
        let record = parse_with(&self.re, line);
        self.feed_record(record)
    }
}

/// The rows that a file gives, and the failure that ended the stream, if
/// one did. Rows written before a failure stay.
#[derive(Debug)]
pub struct Extraction {
    pub rows: Vec<String>,
    pub error: Option<PipelineError>,
}

/// Once a stream has failed, what follows changes nothing.
pub proof fn lemma_failure_ends_stream(records: Seq<Result<RecordModel, ErrorModel>>, k: int)
    requires
        0 <= k <= records.len(),
        run(records.take(k)).error is Some,
    ensures
        run(records) == run(records.take(k)),
    decreases records.len(),
{
    if k == records.len() {
        assert(records.take(k) =~= records);
    } else {
        assert(records.drop_last().take(k) =~= records.take(k));
        lemma_failure_ends_stream(records.drop_last(), k);
    }
}

/// A stream that has not failed has counted every line.
pub proof fn lemma_lines_counted(records: Seq<Result<RecordModel, ErrorModel>>)
    requires
        run(records).error is None,
    ensures
        run(records).state.lines_seen == records.len(),
    decreases records.len(),
{
    if records.len() > 0 {
        lemma_lines_counted(records.drop_last());
    }
}

/// Once the schema is set it stays as it is, whatever is fed afterwards.
pub proof fn lemma_schema_stays(
    records: Seq<Result<RecordModel, ErrorModel>>,
    k: int,
    fields: Seq<Seq<char>>,
)
    requires
        0 <= k <= records.len(),
        run(records.take(k)).state.schema == Some(fields),
    ensures
        run(records).state.schema == Some(fields),
    decreases records.len(),
{
    if k == records.len() {
        assert(records.take(k) =~= records);
    } else {
        assert(records.drop_last().take(k) =~= records.take(k));
        lemma_schema_stays(records.drop_last(), k, fields);
    }
}

/// The rows that the variants among `records` give: one for each, in
/// order, its values joined by tabs.
pub open spec fn variant_rows(records: Seq<Result<RecordModel, ErrorModel>>) -> Seq<Seq<char>>
    decreases records.len(),
{
    if records.len() == 0 {
        Seq::empty()
    } else {
        let before = variant_rows(records.drop_last());
        match records.last() {
            Ok(RecordModel::Record(values)) => before.push(joined(values, "\t"@)),
            _ => before,
        }
    }
}

/// Whether a parsed line is a variant.
pub open spec fn is_variant(record: Result<RecordModel, ErrorModel>) -> bool {
    record is Ok && record->Ok_0 is Record
}

/// No parsed line of `records` failed, and every variant among them has
/// `n` values.
pub open spec fn fits_schema(records: Seq<Result<RecordModel, ErrorModel>>, n: nat) -> bool {
    forall|j: int|
        0 <= j < records.len() ==> (#[trigger] records[j]) is Ok && (records[j]->Ok_0 is Record
            ==> records[j]->Ok_0->Record_0.len() == n)
}

/// There are as many variant rows as variants.
pub proof fn lemma_one_row_per_variant(records: Seq<Result<RecordModel, ErrorModel>>)
    ensures
        variant_rows(records).len() == records.filter(
            |r: Result<RecordModel, ErrorModel>| is_variant(r),
        ).len(),
    decreases records.len(),
{
    reveal(Seq::filter);
    if records.len() > 0 {
        lemma_one_row_per_variant(records.drop_last());
    }
}

/// Lines that say nothing change nothing but the count of lines.
pub proof fn lemma_silent_stream(records: Seq<Result<RecordModel, ErrorModel>>)
    requires
        forall|j: int|
            0 <= j < records.len() ==> (#[trigger] records[j]) == Ok::<RecordModel, ErrorModel>(
                RecordModel::Nothing,
            ),
    ensures
        run(records) == (RunModel {
            state: ExtractorModel { schema: None, lines_seen: records.len() },
            rows: Seq::empty(),
            error: None,
        }),
    decreases records.len(),
{
    if records.len() > 0 {
        let before = records.drop_last();
        assert forall|j: int| 0 <= j < before.len() implies (#[trigger] before[j]) == Ok::<
            RecordModel,
            ErrorModel,
        >(RecordModel::Nothing) by {
            assert(before[j] == records[j]);
        }
        lemma_silent_stream(before);
    }
}

/// A well-formed file: its first declaration, of `fields`, stands at
/// position `h` with nothing but silent lines before it, and after it no
/// line fails and every variant has as many values as there are fields.
/// Then the stream does not fail, and what is written is the header, once,
/// followed by one row for each variant, in order.
pub proof fn lemma_well_formed_stream(
    records: Seq<Result<RecordModel, ErrorModel>>,
    h: int,
    fields: Seq<Seq<char>>,
)
    requires
        0 <= h < records.len(),
        forall|j: int|
            0 <= j < h ==> (#[trigger] records[j]) == Ok::<RecordModel, ErrorModel>(
                RecordModel::Nothing,
            ),
        records[h] == Ok::<RecordModel, ErrorModel>(RecordModel::Header(fields)),
        fits_schema(records.skip(h + 1), fields.len()),
    ensures
        run(records).error is None,
        run(records).state.schema == Some(fields),
        run(records).rows == seq![joined(fields, "\t"@)] + variant_rows(records.skip(h + 1)),
        run(records).rows.len() == 1 + variant_rows(records.skip(h + 1)).len(),
    decreases records.len(),
{
    let front = records.drop_last();
    let after = records.skip(h + 1);
    if records.len() == h + 1 {
        assert forall|j: int| 0 <= j < front.len() implies (#[trigger] front[j]) == Ok::<
            RecordModel,
            ErrorModel,
        >(RecordModel::Nothing) by {
            assert(front[j] == records[j]);
        }
        lemma_silent_stream(front);
        assert(after =~= Seq::empty());
        assert(run(records).rows =~= seq![joined(fields, "\t"@)] + variant_rows(after));
    } else {
        assert(front.skip(h + 1) =~= after.drop_last());
        assert(fits_schema(front.skip(h + 1), fields.len())) by {
            assert forall|j: int| 0 <= j < front.skip(h + 1).len() implies (
            #[trigger] front.skip(h + 1)[j]) is Ok && (front.skip(h + 1)[j]->Ok_0 is Record
                ==> front.skip(h + 1)[j]->Ok_0->Record_0.len() == fields.len()) by {
                assert(front.skip(h + 1)[j] == after[j]);
            }
        }
        assert forall|j: int| 0 <= j < h implies (#[trigger] front[j]) == Ok::<
            RecordModel,
            ErrorModel,
        >(RecordModel::Nothing) by {
            assert(front[j] == records[j]);
        }
        assert(front[h] == records[h]);
        lemma_well_formed_stream(front, h, fields);
        assert(records.last() == after[after.len() - 1]);
        assert(after.last() == records.last());
        assert(run(records).rows =~= seq![joined(fields, "\t"@)] + variant_rows(after));
    }
}

/// Without a declaration nothing is written, and the only failure is the
/// missing schema, which the first variant brings.
pub proof fn lemma_before_declaration(records: Seq<Result<RecordModel, ErrorModel>>)
    requires
        forall|j: int|
            0 <= j < records.len() ==> (#[trigger] records[j]) is Ok
                && !(records[j]->Ok_0 is Header),
    ensures
        run(records).rows.len() == 0,
        run(records).state.schema is None,
        run(records).error is None ==> forall|j: int|
            0 <= j < records.len() ==> (#[trigger] records[j]) == Ok::<RecordModel, ErrorModel>(
                RecordModel::Nothing,
            ),
        run(records).error is Some ==> run(records).error == Some(
            ErrorModel::SchemaNotYetEstablished,
        ),
    decreases records.len(),
{
    if records.len() > 0 {
        let before = records.drop_last();
        assert forall|j: int| 0 <= j < before.len() implies (#[trigger] before[j]) is Ok && !(
        before[j]->Ok_0 is Header) by {
            assert(before[j] == records[j]);
        }
        lemma_before_declaration(before);
        if run(records).error is None {
            assert forall|j: int| 0 <= j < records.len() implies (#[trigger] records[j]) == Ok::<
                RecordModel,
                ErrorModel,
            >(RecordModel::Nothing) by {
                if j < before.len() {
                    assert(before[j] == records[j]);
                }
            }
        }
    }
}

/// A variant that comes before any declaration of the annotation fields
/// ends the stream with `SchemaNotYetEstablished`, and no row is written.
pub proof fn lemma_variant_before_declaration(
    records: Seq<Result<RecordModel, ErrorModel>>,
    k: int,
)
    requires
        0 <= k < records.len(),
        forall|j: int|
            0 <= j <= k ==> (#[trigger] records[j]) is Ok && !(records[j]->Ok_0 is Header),
        records[k]->Ok_0 is Record,
    ensures
        run(records).error == Some(ErrorModel::SchemaNotYetEstablished),
        run(records).rows.len() == 0,
{
    let head = records.take(k + 1);
    assert forall|j: int| 0 <= j < head.len() implies (#[trigger] head[j]) is Ok && !(
    head[j]->Ok_0 is Header) by {
        assert(head[j] == records[j]);
    }
    lemma_before_declaration(head);
    assert(head[k] == records[k]);
    lemma_failure_ends_stream(records, k + 1);
}

/// Parsing a line fails only for want of the annotation column or of the
/// captured field list: never with a failure of the stream's own.
pub proof fn lemma_line_record_failures(line: Seq<char>, capture: Option<Option<Seq<char>>>)
    ensures
        line_record(line, capture) is Err ==> line_record(line, capture)->Err_0
            == ErrorModel::AnnotationColumnMissing || line_record(line, capture)->Err_0
            == ErrorModel::DescriptionNotCaptured,
{
}

/// A stream that has neither failed nor set a schema has seen no
/// declaration and no failed line.
pub proof fn lemma_no_schema_no_declaration(records: Seq<Result<RecordModel, ErrorModel>>)
    requires
        run(records).error is None,
        run(records).state.schema is None,
    ensures
        forall|j: int|
            0 <= j < records.len() ==> (#[trigger] records[j]) is Ok
                && !(records[j]->Ok_0 is Header),
    decreases records.len(),
{
    if records.len() > 0 {
        let front = records.drop_last();
        lemma_no_schema_no_declaration(front);
        assert forall|j: int| 0 <= j < records.len() implies (#[trigger] records[j]) is Ok && !(
        records[j]->Ok_0 is Header) by {
            if j < front.len() {
                assert(front[j] == records[j]);
            }
        }
    }
}

/// `SchemaNotYetEstablished` comes in no other case: where the stream ends
/// with it and no parsed line carried it, some variant stands before any
/// declaration, with no failed line before it. The position of that
/// variant is returned.
pub proof fn lemma_missing_schema_cause(records: Seq<Result<RecordModel, ErrorModel>>) -> (k: int)
    requires
        run(records).error == Some(ErrorModel::SchemaNotYetEstablished),
        forall|j: int|
            0 <= j < records.len() ==> (#[trigger] records[j]) != Err::<RecordModel, ErrorModel>(
                ErrorModel::SchemaNotYetEstablished,
            ),
    ensures
        0 <= k < records.len(),
        is_variant(records[k]),
        forall|j: int|
            0 <= j < k ==> (#[trigger] records[j]) is Ok && !(records[j]->Ok_0 is Header),
    decreases records.len(),
{
    let front = records.drop_last();
    if run(front).error is Some {
        assert forall|j: int| 0 <= j < front.len() implies (#[trigger] front[j]) != Err::<
            RecordModel,
            ErrorModel,
        >(ErrorModel::SchemaNotYetEstablished) by {
            assert(front[j] == records[j]);
        }
        let k = lemma_missing_schema_cause(front);
        assert(front[k] == records[k]);
        assert forall|j: int| 0 <= j < k implies (#[trigger] records[j]) is Ok && !(
        records[j]->Ok_0 is Header) by {
            assert(front[j] == records[j]);
        }
        k
    } else {
        assert(records[records.len() - 1] == records.last());
        lemma_no_schema_no_declaration(front);
        assert forall|j: int| 0 <= j < records.len() - 1 implies (#[trigger] records[j]) is Ok
            && !(records[j]->Ok_0 is Header) by {
            assert(front[j] == records[j]);
        }
        records.len() - 1
    }
}

/// A line that says nothing, put anywhere into a stream, changes no row
/// and not the schema, nor whether the stream fails.
pub proof fn lemma_silent_line_changes_no_row(
    records: Seq<Result<RecordModel, ErrorModel>>,
    k: int,
)
    requires
        0 <= k <= records.len(),
    ensures
        run(records.insert(k, Ok(RecordModel::Nothing))).rows == run(records).rows,
        run(records.insert(k, Ok(RecordModel::Nothing))).state.schema == run(
            records,
        ).state.schema,
        run(records.insert(k, Ok(RecordModel::Nothing))).error is None <==> run(
            records,
        ).error is None,
    decreases records.len(),
{
    let more = records.insert(k, Ok(RecordModel::Nothing));
    if k == records.len() {
        assert(more.drop_last() =~= records);
        assert(more.last() == Ok::<RecordModel, ErrorModel>(RecordModel::Nothing));
    } else {
        let front = records.drop_last();
        assert(more.drop_last() =~= front.insert(k, Ok(RecordModel::Nothing)));
        assert(more.last() == records.last());
        lemma_silent_line_changes_no_row(front, k);
    }
}

/// A variant whose annotation has another number of values than the schema
/// ends the stream with `SchemaMismatch`: the line's number counted from
/// one, the schema's count and the variant's count. The rows written before
/// it stay, and none is added.
pub proof fn lemma_mismatch_reported(
    records: Seq<Result<RecordModel, ErrorModel>>,
    k: int,
    fields: Seq<Seq<char>>,
    values: Seq<Seq<char>>,
)
    requires
        0 <= k < records.len(),
        run(records.take(k)).error is None,
        run(records.take(k)).state.schema == Some(fields),
        records[k] == Ok::<RecordModel, ErrorModel>(RecordModel::Record(values)),
        fields.len() != values.len(),
    ensures
        run(records).error == Some(
            ErrorModel::SchemaMismatch {
                line: (k + 1) as u64,
                expected: fields.len() as usize,
                actual: values.len() as usize,
            },
        ),
        run(records).rows == run(records.take(k)).rows,
{
    let head = records.take(k + 1);
    assert(head.drop_last() =~= records.take(k));
    assert(head.last() == records[k]);
    lemma_lines_counted(records.take(k));
    lemma_failure_ends_stream(records, k + 1);
}

/// The first variant that does not fit the schema, in a file that is well
/// formed up to it: the stream ends with `SchemaMismatch` for that line,
/// counted from one over all lines, and what was written is the header and
/// one row for each variant before it.
pub proof fn lemma_first_mismatch(
    records: Seq<Result<RecordModel, ErrorModel>>,
    h: int,
    k: int,
    fields: Seq<Seq<char>>,
    values: Seq<Seq<char>>,
)
    requires
        0 <= h < k < records.len(),
        forall|j: int|
            0 <= j < h ==> (#[trigger] records[j]) == Ok::<RecordModel, ErrorModel>(
                RecordModel::Nothing,
            ),
        records[h] == Ok::<RecordModel, ErrorModel>(RecordModel::Header(fields)),
        fits_schema(records.subrange(h + 1, k), fields.len()),
        records[k] == Ok::<RecordModel, ErrorModel>(RecordModel::Record(values)),
        fields.len() != values.len(),
    ensures
        run(records).error == Some(
            ErrorModel::SchemaMismatch {
                line: (k + 1) as u64,
                expected: fields.len() as usize,
                actual: values.len() as usize,
            },
        ),
        run(records).rows == seq![joined(fields, "\t"@)] + variant_rows(
            records.subrange(h + 1, k),
        ),
{
    let head = records.take(k);
    assert(head.skip(h + 1) =~= records.subrange(h + 1, k));
    assert forall|j: int| 0 <= j < h implies (#[trigger] head[j]) == Ok::<
        RecordModel,
        ErrorModel,
    >(RecordModel::Nothing) by {
        assert(head[j] == records[j]);
    }
    assert(head[h] == records[h]);
    lemma_well_formed_stream(head, h, fields);
    lemma_mismatch_reported(records, k, fields, values);
}

/// A declaration of fields followed by a variant with as many values gives
/// two rows: the field names joined by tabs, once, then the values joined
/// by tabs.
pub proof fn lemma_declaration_then_variant(fields: Seq<Seq<char>>, values: Seq<Seq<char>>)
    requires
        fields.len() == values.len(),
    ensures
        run(
            seq![
                Ok::<RecordModel, ErrorModel>(RecordModel::Header(fields)),
                Ok::<RecordModel, ErrorModel>(RecordModel::Record(values)),
            ],
        ).rows == seq![joined(fields, "\t"@), joined(values, "\t"@)],
        run(
            seq![
                Ok::<RecordModel, ErrorModel>(RecordModel::Header(fields)),
                Ok::<RecordModel, ErrorModel>(RecordModel::Record(values)),
            ],
        ).error is None,
{
    let both = seq![
        Ok::<RecordModel, ErrorModel>(RecordModel::Header(fields)),
        Ok::<RecordModel, ErrorModel>(RecordModel::Record(values)),
    ];
    let first = both.drop_last();
    assert(first.drop_last() =~= Seq::empty());
    assert(run(first.drop_last()) == start());
    assert(run(first).rows =~= seq![joined(fields, "\t"@)]);
    assert(run(both).rows =~= seq![joined(fields, "\t"@), joined(values, "\t"@)]);
}

/// Extracts the annotations of a whole file, given as its lines: the rows
/// in order, the header row first, and the failure that ended the stream,
/// if one did. Fails as a whole, with `DescriptionPatternRejected`, exactly
/// where the description pattern does not compile.
pub fn parse_ann_vcf_result(lines: &Vec<String>) -> (r: Result<Extraction, PipelineError>)
    ensures
        r is Ok <==> pattern_compiles(description_pattern()),
        r is Err ==> r->Err_0@ == ErrorModel::DescriptionPatternRejected,
        r is Ok ==> texts(r->Ok_0.rows@) == run(records_of(texts(lines@))).rows && failure_model(
            r->Ok_0.error,
        ) == run(records_of(texts(lines@))).error,
{
    let mut extractor = match AnnotationExtractor::new() {
        Ok(extractor) => extractor,
        Err(e) => {
            return Err(e);
        },
    };
    let ghost records = records_of(texts(lines@));
    let mut rows: Vec<String> = Vec::new();
    let mut i: usize = 0;
    proof {
        assert(records.take(0) =~= Seq::empty());
        assert(texts(rows@) =~= Seq::<Seq<char>>::empty());
    }
    while i < lines.len()
        invariant
            i <= lines.len(),
            pattern_compiles(description_pattern()),
            records == records_of(texts(lines@)),
            run(records.take(i as int)) == (RunModel {
                state: extractor@,
                rows: texts(rows@),
                error: None,
            }),
        decreases lines.len() - i,
    {
        proof {
            assert(records.take(i + 1).drop_last() =~= records.take(i as int));
            assert(records.take(i + 1).last() == records[i as int]);
            lemma_lines_counted(records.take(i as int));
        }
        match extractor.feed_line(lines[i].as_str()) {
            Ok(Some(row)) => {
                proof {
                    assert(texts(rows@.push(row)) =~= texts(rows@).push(row@));
                }
                rows.push(row);
            },
            Ok(None) => {},
            Err(e) => {
                proof {
                    lemma_failure_ends_stream(records, i + 1);
                }
                return Ok(Extraction { rows, error: Some(e) });
            },
        }
        i += 1;
    }
    proof {
        assert(records.take(lines.len() as int) =~= records);
    }
    Ok(Extraction { rows, error: None })
}

/// The sum of two numbers.
pub fn add(left: u64, right: u64) -> (r: u64)
    requires
        left + right <= u64::MAX,
    ensures
        r == left + right,
{
    left + right
}

} // verus!
