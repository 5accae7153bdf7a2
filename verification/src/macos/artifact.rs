//! Injected-bundle metadata and on-disk layout validation.

use vstd::prelude::*;
use vstd::slice::slice_subrange;
use vstd::string::StringSliceAdditionalSpecFns;
use vstd::utf8::encode_utf8;

use crate::domain::bytes::{
    bytes_equal, contains_part, copy_range, find_place, first_place, has_part, lemma_first_place,
};
use crate::domain::error::{report, ErrorCategory, ErrorCode, ErrorReport, Recoverability};
use crate::domain::text::{lemma_encode_append, lemma_plain_bytes};

verus! {

/// Bundle executable name shared with `Info.plist`.
pub const BUNDLE_EXECUTABLE: &'static str = "nwipc-macos-bundle";

/// How `Info.plist` names the executable.
pub const EXECUTABLE_METADATA: &'static str = "<string>nwipc-macos-bundle</string>";

/// Embedded compatibility manifest name.
pub const MANIFEST_FILE: &'static str = "nwipc-manifest.txt";

/// Current artifact manifest format.
pub const MANIFEST_SCHEMA: u16 = 1;

/// Current NWIPC layout version embedded in artifacts.
pub const LAYOUT_VERSION: u16 = 1;

/// Current NWIPC protocol version embedded in artifacts.
pub const PROTOCOL_VERSION: u16 = 1;

/// What a build says of itself.
#[derive(Clone, Copy, Debug)]
pub struct BuildIdentity<'a> {
    /// Version of the bundle.
    pub bundle_version: &'a str,
    /// CPU architecture of the build.
    pub architecture: &'a str,
}

/// The report of an artifact failure.
pub open spec fn artifact_report(operation: &'static str) -> ErrorReport {
    report(
        ErrorCategory::Configuration,
        ErrorCode::ProtocolViolation,
        Recoverability::Terminal,
        operation,
    )
}

fn artifact_error(operation: &'static str) -> (created: ErrorReport)
    ensures
        created == artifact_report(operation),
{
    ErrorReport::new(
        ErrorCategory::Configuration,
        ErrorCode::ProtocolViolation,
        Recoverability::Terminal,
        operation,
    )
}

/// A key and its value.
pub type FieldView = (Seq<u8>, Seq<u8>);

/// The fields that a manifest has, in the order in which they are written.
pub open spec fn expected_fields(version: Seq<u8>, architecture: Seq<u8>) -> Seq<FieldView> {
    seq![
        ("schema".spec_bytes(), "1".spec_bytes()),
        ("bundleVersion".spec_bytes(), version),
        ("layoutVersion".spec_bytes(), "1".spec_bytes()),
        ("protocolVersion".spec_bytes(), "1".spec_bytes()),
        ("architecture".spec_bytes(), architecture),
    ]
}

/// A line without the carriage return at its end.
pub open spec fn without_return(line: Seq<u8>) -> Seq<u8> {
    if line.len() > 0 && line.last() == 13 {
        line.drop_last()
    } else {
        line
    }
}

/// The lines of a text: each ends with a newline, or with a carriage return and a newline; the
/// last one may also end with the text.
pub open spec fn lines_of(text: Seq<u8>) -> Seq<Seq<u8>>
    decreases text.len(),
{
    let place = first_place(text, 10);
    if text.len() == 0 {
        Seq::empty()
    } else if place >= text.len() {
        seq![text]
    } else {
        seq![without_return(text.take(place as int))] + lines_of(text.skip(place as int + 1))
    }
}

/// The field on a line: what stands in front of the first equals sign, and what stands behind it.
pub open spec fn field_of(line: Seq<u8>) -> Option<FieldView> {
    let place = first_place(line, 61);
    if place < line.len() {
        Some((line.take(place as int), line.skip(place as int + 1)))
    } else {
        None
    }
}

/// Whether a key is in use.
pub open spec fn has_key(fields: Seq<FieldView>, key: Seq<u8>) -> bool {
    exists|index: int| 0 <= index < fields.len() && #[trigger] fields[index].0 == key
}

/// The fields on lines, or the first failure among them.
pub open spec fn collected(lines: Seq<Seq<u8>>) -> Result<Seq<FieldView>, ErrorReport>
    decreases lines.len(),
{
    if lines.len() == 0 {
        Ok(Seq::empty())
    } else {
        match (collected(lines.drop_last()), field_of(lines.last())) {
            (Err(error), _) => Err(error),
            (Ok(_), None) => Err(artifact_report("injected bundle manifest syntax")),
            (Ok(fields), Some(field)) => if has_key(fields, field.0) {
                Err(artifact_report("injected bundle duplicate manifest field"))
            } else {
                Ok(fields.push(field))
            },
        }
    }
}

/// Whether fields are exactly the expected ones, in any order.
pub open spec fn fields_match(fields: Seq<FieldView>, expected: Seq<FieldView>) -> bool {
    &&& fields.len() == expected.len()
    &&& forall|index: int|
        0 <= index < expected.len() ==> fields.contains(#[trigger] expected[index])
}

/// Why a manifest is not that of a build, if it is not.
pub open spec fn manifest_rejection(
    manifest: Seq<u8>,
    version: Seq<u8>,
    architecture: Seq<u8>,
) -> Option<ErrorReport> {
    match collected(lines_of(manifest)) {
        Err(error) => Some(error),
        Ok(fields) => if fields_match(fields, expected_fields(version, architecture)) {
            None
        } else {
            Some(artifact_report("injected bundle compatibility"))
        },
    }
}

/// A parsed field.
pub struct ManifestField {
    /// Key.
    pub key: Vec<u8>,
    /// Value.
    pub value: Vec<u8>,
}

impl View for ManifestField {
    type V = FieldView;

    open spec fn view(&self) -> FieldView {
        (self.key@, self.value@)
    }
}

/// The contents of parsed fields.
pub open spec fn field_views(fields: Seq<ManifestField>) -> Seq<FieldView> {
    fields.map_values(|field: ManifestField| field@)
}

proof fn lemma_collected_prefix(lines: Seq<Seq<u8>>, more: Seq<Seq<u8>>)
    requires
        collected(lines) is Err,
    ensures
        collected(lines + more) == collected(lines),
    decreases more.len(),
{
    if more.len() == 0 {
        assert(lines + more =~= lines);
    } else {
        lemma_collected_prefix(lines, more.drop_last());
        assert((lines + more).drop_last() =~= lines + more.drop_last());
    }
}

fn contains_key(fields: &Vec<ManifestField>, key: &[u8]) -> (found: bool)
    ensures
        found == has_key(field_views(fields@), key@),
{
    let mut index: usize = 0;
    while index < fields.len()
        invariant
            index <= fields@.len(),
            forall|seen: int| 0 <= seen < index ==> #[trigger] field_views(fields@)[seen].0 != key@,
        decreases fields@.len() - index,
    {
        if bytes_equal(fields[index].key.as_slice(), key) {
            proof {
                assert(field_views(fields@)[index as int].0 == key@);
            }
            return true;
        }
        index += 1;
    }
    false
}

fn contains_field(fields: &Vec<ManifestField>, key: &[u8], value: &[u8]) -> (found: bool)
    ensures
        found == field_views(fields@).contains((key@, value@)),
{
    let mut index: usize = 0;
    while index < fields.len()
        invariant
            index <= fields@.len(),
            forall|seen: int|
                0 <= seen < index ==> #[trigger] field_views(fields@)[seen] != (key@, value@),
        decreases fields@.len() - index,
    {
        if bytes_equal(fields[index].key.as_slice(), key) && bytes_equal(
            fields[index].value.as_slice(),
            value,
        ) {
            proof {
                assert(field_views(fields@)[index as int] == (key@, value@));
            }
            return true;
        }
        index += 1;
    }
    false
}

fn parse_fields(manifest: &[u8]) -> (parsed: Result<Vec<ManifestField>, ErrorReport>)
    ensures
        match parsed {
            Ok(fields) => collected(lines_of(manifest@)) == Ok::<Seq<FieldView>, ErrorReport>(
                field_views(fields@),
            ),
            Err(error) => collected(lines_of(manifest@)) == Err::<Seq<FieldView>, ErrorReport>(
                error,
            ),
        },
{
    let mut fields: Vec<ManifestField> = Vec::new();
    let mut cursor: usize = 0;
    let ghost mut done: Seq<Seq<u8>> = Seq::empty();
    proof {
        assert(manifest@.skip(0) =~= manifest@);
        assert(done + lines_of(manifest@) =~= lines_of(manifest@));
        assert(field_views(fields@) =~= Seq::<FieldView>::empty());
    }
    while cursor < manifest.len()
        invariant
            cursor <= manifest@.len(),
            lines_of(manifest@) == done + lines_of(manifest@.skip(cursor as int)),
            collected(done) == Ok::<Seq<FieldView>, ErrorReport>(field_views(fields@)),
        decreases manifest@.len() - cursor,
    {
        let rest = slice_subrange(manifest, cursor, manifest.len());
        proof {
            assert(rest@ =~= manifest@.skip(cursor as int));
        }
        let place: usize = find_place(rest, 10);
        let mut end: usize = place;
        if place < rest.len() && place > 0 && rest[place - 1] == 13 {
            end = place - 1;
        }
        let line = slice_subrange(rest, 0, end);
        let ghost after = if place < rest@.len() {
            rest@.skip(place + 1)
        } else {
            Seq::empty()
        };
        proof {
            if place < rest@.len() {
                assert(line@ =~= without_return(rest@.take(place as int)));
            } else {
                assert(line@ =~= rest@);
                assert(lines_of(after) =~= Seq::<Seq<u8>>::empty());
            }
            assert(lines_of(rest@) =~= seq![line@] + lines_of(after));
            assert(done + (seq![line@] + lines_of(after)) =~= done.push(line@) + lines_of(after));
            assert(done.push(line@).drop_last() =~= done);
        }
        let equals: usize = find_place(line, 61);
        if equals == line.len() {
            proof {
                lemma_collected_prefix(done.push(line@), lines_of(after));
            }
            return Err(artifact_error("injected bundle manifest syntax"));
        }
        let key: Vec<u8> = copy_range(line, 0, equals);
        let value: Vec<u8> = copy_range(line, equals + 1, line.len());
        proof {
            assert(key@ =~= line@.take(equals as int));
            assert(value@ =~= line@.skip(equals + 1));
        }
        if contains_key(&fields, key.as_slice()) {
            proof {
                lemma_collected_prefix(done.push(line@), lines_of(after));
            }
            return Err(artifact_error("injected bundle duplicate manifest field"));
        }
        let ghost before = fields@;
        fields.push(ManifestField { key, value });
        proof {
            assert(field_views(fields@) =~= field_views(before).push((key@, value@)));
            done = done.push(line@);
        }
        if place == rest.len() {
            proof {
                assert(done + lines_of(after) =~= done);
            }
            return Ok(fields);
        }
        proof {
            assert(after =~= manifest@.skip(cursor + place + 1));
        }
        cursor = cursor + place + 1;
    }
    proof {
        assert(manifest@.skip(cursor as int) =~= Seq::<u8>::empty());
        assert(done + lines_of(manifest@.skip(cursor as int)) =~= done);
    }
    Ok(fields)
}

/// Validates exact required manifest fields and current protocol compatibility.
///
/// Missing, duplicate, unknown, and mismatched fields are rejected.
pub fn validate_manifest(manifest: &str, build: BuildIdentity<'_>) -> (validated: Result<
    (),
    ErrorReport,
>)
    ensures
        match validated {
            Ok(_) => manifest_rejection(
                manifest.spec_bytes(),
                build.bundle_version.spec_bytes(),
                build.architecture.spec_bytes(),
            ) is None,
            Err(error) => manifest_rejection(
                manifest.spec_bytes(),
                build.bundle_version.spec_bytes(),
                build.architecture.spec_bytes(),
            ) == Some(error),
        },
{
    let fields = parse_fields(manifest.as_bytes())?;
    let version = build.bundle_version.as_bytes();
    let architecture = build.architecture.as_bytes();
    let complete = fields.len() == 5 && contains_field(
        &fields,
        "schema".as_bytes(),
        "1".as_bytes(),
    ) && contains_field(&fields, "bundleVersion".as_bytes(), version) && contains_field(
        &fields,
        "layoutVersion".as_bytes(),
        "1".as_bytes(),
    ) && contains_field(&fields, "protocolVersion".as_bytes(), "1".as_bytes()) && contains_field(
        &fields,
        "architecture".as_bytes(),
        architecture,
    );
    proof {
        let views = field_views(fields@);
        let expected = expected_fields(version@, architecture@);
        assert(expected[0] == ("schema".spec_bytes(), "1".spec_bytes()));
        assert(expected[1] == ("bundleVersion".spec_bytes(), version@));
        assert(expected[2] == ("layoutVersion".spec_bytes(), "1".spec_bytes()));
        assert(expected[3] == ("protocolVersion".spec_bytes(), "1".spec_bytes()));
        assert(expected[4] == ("architecture".spec_bytes(), architecture@));
        assert(expected.len() == 5);
        if complete {
            assert forall|index: int| 0 <= index < expected.len() implies views.contains(
                #[trigger] expected[index],
            ) by {
                if index == 0 {
                } else if index == 1 {
                } else if index == 2 {
                } else if index == 3 {
                } else {
                    assert(index == 4);
                }
            }
        }
    }
    if !complete {
        return Err(artifact_error("injected bundle compatibility"));
    }
    Ok(())
}

/// The manifest of a build.
pub open spec fn manifest_text(build: BuildIdentity<'_>) -> Seq<char> {
    "schema=1\nbundleVersion="@ + build.bundle_version@
        + "\nlayoutVersion=1\nprotocolVersion=1\narchitecture="@ + build.architecture@ + "\n"@
}

/// Produces the deterministic compatibility manifest of a build.
pub fn current_manifest(build: BuildIdentity<'_>) -> (manifest: String)
    ensures
        manifest@ == manifest_text(build),
{
    let mut manifest = String::from_str("schema=1\nbundleVersion=");
    manifest.append(build.bundle_version);
    manifest.append("\nlayoutVersion=1\nprotocolVersion=1\narchitecture=");
    manifest.append(build.architecture);
    manifest.append("\n");
    manifest
}

/// The line of a field.
pub open spec fn line_of(field: FieldView) -> Seq<u8> {
    field.0 + seq![61u8] + field.1
}

/// A field whose line is read back as it is written.
pub open spec fn writable(field: FieldView) -> bool {
    &&& !field.0.contains(61u8)
    &&& !field.0.contains(10u8)
    &&& !field.1.contains(10u8)
    &&& !field.1.contains(13u8)
}

proof fn lemma_line_read(field: FieldView, rest: Seq<u8>)
    requires
        writable(field),
    ensures
        lines_of(line_of(field) + seq![10u8] + rest) == seq![line_of(field)] + lines_of(rest),
        field_of(line_of(field)) == Some(field),
{
    let line = line_of(field);
    let text = line + seq![10u8] + rest;
    assert forall|index: int| 0 <= index < line.len() implies text[index] != 10 by {
        assert(text[index] == line[index]);
        if index < field.0.len() {
            assert(line[index] == field.0[index]);
        } else if index > field.0.len() {
            assert(line[index] == field.1[index - field.0.len() - 1]);
        }
    }
    assert(text[line.len() as int] == 10);
    lemma_first_place(text, 10, line.len() as int);
    assert(text.take(line.len() as int) =~= line);
    if field.1.len() > 0 {
        assert(line.last() == field.1.last());
        assert(field.1.contains(field.1.last()));
    } else {
        assert(line.last() == 61);
    }
    assert(without_return(line) == line);
    assert(text.skip(line.len() as int + 1) =~= rest);
    let place = field.0.len() as int;
    assert forall|index: int| 0 <= index < place implies line[index] != 61 by {
        assert(line[index] == field.0[index]);
    }
    lemma_first_place(line, 61, place);
    assert(line.take(place) =~= field.0);
    assert(line.skip(place + 1) =~= field.1);
}

proof fn lemma_manifest_bytes(build: BuildIdentity<'_>)
    ensures
        ({
            let expected = expected_fields(
                build.bundle_version.spec_bytes(),
                build.architecture.spec_bytes(),
            );
            encode_utf8(manifest_text(build)) == line_of(expected[0]) + seq![10u8] + (line_of(
                expected[1],
            ) + seq![10u8] + (line_of(expected[2]) + seq![10u8] + (line_of(expected[3])
                + seq![10u8] + (line_of(expected[4]) + seq![10u8] + Seq::<u8>::empty()))))
        }),
{
    reveal_strlit("schema=1\nbundleVersion=");
    reveal_strlit("\nlayoutVersion=1\nprotocolVersion=1\narchitecture=");
    reveal_strlit("\n");
    reveal_strlit("schema");
    reveal_strlit("bundleVersion");
    reveal_strlit("layoutVersion");
    reveal_strlit("protocolVersion");
    reveal_strlit("architecture");
    reveal_strlit("1");
    let head = "schema=1\nbundleVersion="@;
    let middle = "\nlayoutVersion=1\nprotocolVersion=1\narchitecture="@;
    let end = "\n"@;
    let version = build.bundle_version@;
    let architecture = build.architecture@;
    lemma_encode_append(head, version);
    lemma_encode_append(head + version, middle);
    lemma_encode_append(head + version + middle, architecture);
    lemma_encode_append(head + version + middle + architecture, end);
    lemma_plain_bytes(head);
    lemma_plain_bytes(middle);
    lemma_plain_bytes(end);
    lemma_plain_bytes("schema"@);
    lemma_plain_bytes("bundleVersion"@);
    lemma_plain_bytes("layoutVersion"@);
    lemma_plain_bytes("protocolVersion"@);
    lemma_plain_bytes("architecture"@);
    lemma_plain_bytes("1"@);
    let newline = seq![10u8];
    let equals = seq![61u8];
    let one = "1".spec_bytes();
    assert(encode_utf8(end) =~= newline);
    assert(encode_utf8(head) =~= "schema".spec_bytes() + equals + one + newline
        + "bundleVersion".spec_bytes() + equals);
    assert(encode_utf8(middle) =~= newline + "layoutVersion".spec_bytes() + equals + one + newline
        + "protocolVersion".spec_bytes() + equals + one + newline + "architecture".spec_bytes()
        + equals);
    let expected = expected_fields(
        build.bundle_version.spec_bytes(),
        build.architecture.spec_bytes(),
    );
    assert(encode_utf8(manifest_text(build)) =~= line_of(expected[0]) + newline + (line_of(
        expected[1],
    ) + newline + (line_of(expected[2]) + newline + (line_of(expected[3]) + newline + (line_of(
        expected[4],
    ) + newline + Seq::<u8>::empty())))));
}

proof fn lemma_keys_are_distinct()
    ensures
        "schema".spec_bytes() != "bundleVersion".spec_bytes(),
        "schema".spec_bytes() != "layoutVersion".spec_bytes(),
        "schema".spec_bytes() != "protocolVersion".spec_bytes(),
        "schema".spec_bytes() != "architecture".spec_bytes(),
        "bundleVersion".spec_bytes() != "layoutVersion".spec_bytes(),
        "bundleVersion".spec_bytes() != "protocolVersion".spec_bytes(),
        "bundleVersion".spec_bytes() != "architecture".spec_bytes(),
        "layoutVersion".spec_bytes() != "protocolVersion".spec_bytes(),
        "layoutVersion".spec_bytes() != "architecture".spec_bytes(),
        "protocolVersion".spec_bytes() != "architecture".spec_bytes(),
        forall|byte: u8| #![trigger "schema".spec_bytes().contains(byte)]
            byte == 10 || byte == 61 ==> !"schema".spec_bytes().contains(byte),
        forall|byte: u8| #![trigger "bundleVersion".spec_bytes().contains(byte)]
            byte == 10 || byte == 61 ==> !"bundleVersion".spec_bytes().contains(byte),
        forall|byte: u8| #![trigger "layoutVersion".spec_bytes().contains(byte)]
            byte == 10 || byte == 61 ==> !"layoutVersion".spec_bytes().contains(byte),
        forall|byte: u8| #![trigger "protocolVersion".spec_bytes().contains(byte)]
            byte == 10 || byte == 61 ==> !"protocolVersion".spec_bytes().contains(byte),
        forall|byte: u8| #![trigger "architecture".spec_bytes().contains(byte)]
            byte == 10 || byte == 61 ==> !"architecture".spec_bytes().contains(byte),
        forall|byte: u8| #![trigger "1".spec_bytes().contains(byte)]
            byte == 10 || byte == 13 ==> !"1".spec_bytes().contains(byte),
{
    reveal_strlit("schema");
    reveal_strlit("bundleVersion");
    reveal_strlit("layoutVersion");
    reveal_strlit("protocolVersion");
    reveal_strlit("architecture");
    reveal_strlit("1");
    lemma_plain_bytes("schema"@);
    lemma_plain_bytes("bundleVersion"@);
    lemma_plain_bytes("layoutVersion"@);
    lemma_plain_bytes("protocolVersion"@);
    lemma_plain_bytes("architecture"@);
    lemma_plain_bytes("1"@);
    assert("bundleVersion".spec_bytes()[0] == 98);
    assert("layoutVersion".spec_bytes()[0] == 108);
}

/// The manifest of a build is valid for that build.
#[verifier::rlimit(60)]
pub proof fn law_current_manifest_is_valid(build: BuildIdentity<'_>)
    requires
        !build.bundle_version.spec_bytes().contains(10u8),
        !build.bundle_version.spec_bytes().contains(13u8),
        !build.architecture.spec_bytes().contains(10u8),
        !build.architecture.spec_bytes().contains(13u8),
    ensures
        manifest_rejection(
            encode_utf8(manifest_text(build)),
            build.bundle_version.spec_bytes(),
            build.architecture.spec_bytes(),
        ) is None,
{
    let version = build.bundle_version.spec_bytes();
    let architecture = build.architecture.spec_bytes();
    let expected = expected_fields(version, architecture);
    lemma_manifest_bytes(build);
    lemma_keys_are_distinct();
    let newline = seq![10u8];
    let r5 = Seq::<u8>::empty();
    let r4 = line_of(expected[4]) + newline + r5;
    let r3 = line_of(expected[3]) + newline + r4;
    let r2 = line_of(expected[2]) + newline + r3;
    let r1 = line_of(expected[1]) + newline + r2;
    lemma_line_read(expected[4], r5);
    lemma_line_read(expected[3], r4);
    lemma_line_read(expected[2], r3);
    lemma_line_read(expected[1], r2);
    lemma_line_read(expected[0], r1);
    let lines = seq![
        line_of(expected[0]),
        line_of(expected[1]),
        line_of(expected[2]),
        line_of(expected[3]),
        line_of(expected[4]),
    ];
    assert(lines_of(r5) =~= Seq::<Seq<u8>>::empty());
    assert(lines_of(encode_utf8(manifest_text(build))) =~= lines);
    let l4 = lines.drop_last();
    let l3 = l4.drop_last();
    let l2 = l3.drop_last();
    let l1 = l2.drop_last();
    assert(l1.drop_last() =~= Seq::<Seq<u8>>::empty());
    let f1 = seq![expected[0]];
    let f2 = f1.push(expected[1]);
    let f3 = f2.push(expected[2]);
    let f4 = f3.push(expected[3]);
    assert(collected(l1.drop_last()) == Ok::<Seq<FieldView>, ErrorReport>(Seq::empty()));
    assert(Seq::<FieldView>::empty().push(expected[0]) =~= f1);
    assert(collected(l1) == Ok::<Seq<FieldView>, ErrorReport>(f1));
    assert(collected(l2) == Ok::<Seq<FieldView>, ErrorReport>(f2));
    assert(collected(l3) == Ok::<Seq<FieldView>, ErrorReport>(f3));
    assert(collected(l4) == Ok::<Seq<FieldView>, ErrorReport>(f4));
    assert(f4.push(expected[4]) =~= expected);
    assert(collected(lines) == Ok::<Seq<FieldView>, ErrorReport>(expected));
    assert forall|index: int| 0 <= index < expected.len() implies expected.contains(
        #[trigger] expected[index],
    ) by {
    }
}

/// What was found of a bundle on disk.
pub struct ArtifactFiles<'a> {
    /// Whether the property list, the executable and the manifest are files.
    pub complete: bool,
    /// Text of `Info.plist`, if it could be read.
    pub plist: Option<&'a str>,
    /// Text of the manifest, if it could be read.
    pub manifest: Option<&'a str>,
}

/// Why a bundle is not an artifact of a build, if it is not.
pub open spec fn artifact_rejection(files: ArtifactFiles<'_>, build: BuildIdentity<'_>) -> Option<
    ErrorReport,
> {
    if !files.complete {
        Some(artifact_report("injected bundle layout"))
    } else {
        match (files.plist, files.manifest) {
            (None, _) => Some(artifact_report("injected bundle plist")),
            (Some(plist), manifest) => if !has_part(
                plist.spec_bytes(),
                EXECUTABLE_METADATA.spec_bytes(),
            ) {
                Some(artifact_report("injected bundle executable metadata"))
            } else {
                match manifest {
                    None => Some(artifact_report("injected bundle manifest")),
                    Some(manifest) => manifest_rejection(
                        manifest.spec_bytes(),
                        build.bundle_version.spec_bytes(),
                        build.architecture.spec_bytes(),
                    ),
                }
            },
        }
    }
}

/// Parsed and validated bundle paths.
#[derive(Clone, Debug)]
pub struct MacosArtifact {
    bundle: String,
    executable: String,
}

impl MacosArtifact {
    /// Path of the bundle.
    pub closed spec fn spec_bundle(self) -> Seq<char> {
        self.bundle@
    }

    /// Path of the executable.
    pub closed spec fn spec_executable(self) -> Seq<char> {
        self.executable@
    }

    /// Inspects the required bundle layout and compatibility manifest, as they were found on disk.
    ///
    /// A structured configuration error is returned for missing or mismatched artifacts.
    pub fn inspect(
        bundle: String,
        executable: String,
        files: ArtifactFiles<'_>,
        build: BuildIdentity<'_>,
    ) -> (inspected: Result<Self, ErrorReport>)
        ensures
            match inspected {
                Ok(artifact) => artifact_rejection(files, build) is None && artifact.spec_bundle()
                    == bundle@ && artifact.spec_executable() == executable@,
                Err(error) => artifact_rejection(files, build) == Some(error),
            },
    {
        if !files.complete {
            return Err(artifact_error("injected bundle layout"));
        }
        let plist = match files.plist {
            Some(plist) => plist,
            None => {
                return Err(artifact_error("injected bundle plist"));
            },
        };
        if !contains_part(plist.as_bytes(), EXECUTABLE_METADATA.as_bytes()) {
            return Err(artifact_error("injected bundle executable metadata"));
        }
        let manifest = match files.manifest {
            Some(manifest) => manifest,
            None => {
                return Err(artifact_error("injected bundle manifest"));
            },
        };
        validate_manifest(manifest, build)?;
        Ok(MacosArtifact { bundle, executable })
    }

    /// Bundle URL passed to `WebKit` configuration.
    pub fn bundle_path(&self) -> (path: &str)
        ensures
            path@ == self.spec_bundle(),
    {
        self.bundle.as_str()
    }

    /// Executable checked by the artifact inspector.
    pub fn executable_path(&self) -> (path: &str)
        ensures
            path@ == self.spec_executable(),
    {
        self.executable.as_str()
    }
}

/// No key of a manifest that was read occurs twice.
proof fn lemma_collected_keys_are_distinct(lines: Seq<Seq<u8>>)
    requires
        collected(lines) is Ok,
    ensures
        forall|left: int, right: int|
            0 <= left < right < collected(lines)->Ok_0.len() ==> (
            #[trigger] collected(lines)->Ok_0[left]).0 != (
            #[trigger] collected(lines)->Ok_0[right]).0,
    decreases lines.len(),
{
    if lines.len() > 0 {
        let earlier = collected(lines.drop_last())->Ok_0;
        let fields = collected(lines)->Ok_0;
        lemma_collected_keys_are_distinct(lines.drop_last());
        assert forall|left: int, right: int| 0 <= left < right < fields.len() implies (
        #[trigger] fields[left]).0 != (#[trigger] fields[right]).0 by {
            assert(fields[left] == earlier[left]);
            if right < earlier.len() {
                assert(fields[right] == earlier[right]);
            } else {
                assert(earlier[left].0 != fields[right].0);
            }
        }
    }
}

/// A manifest that is accepted for one build is accepted for no other one: it names exactly one
/// version and one architecture.
pub proof fn law_manifests_name_one_build(
    manifest: Seq<u8>,
    version: Seq<u8>,
    architecture: Seq<u8>,
    other_version: Seq<u8>,
    other_architecture: Seq<u8>,
)
    requires
        manifest_rejection(manifest, version, architecture) is None,
        manifest_rejection(manifest, other_version, other_architecture) is None,
    ensures
        version == other_version,
        architecture == other_architecture,
{
    let lines = lines_of(manifest);
    let fields = collected(lines)->Ok_0;
    let expected = expected_fields(version, architecture);
    let other = expected_fields(other_version, other_architecture);
    lemma_collected_keys_are_distinct(lines);
    assert(fields.contains(expected[1]) && fields.contains(other[1]));
    assert(fields.contains(expected[4]) && fields.contains(other[4]));
    let first = choose|place: int| 0 <= place < fields.len() && fields[place] == expected[1];
    let second = choose|place: int| 0 <= place < fields.len() && fields[place] == other[1];
    let third = choose|place: int| 0 <= place < fields.len() && fields[place] == expected[4];
    let fourth = choose|place: int| 0 <= place < fields.len() && fields[place] == other[4];
    assert(fields[first].0 == fields[second].0);
    assert(fields[third].0 == fields[fourth].0);
    assert(first == second);
    assert(third == fourth);
}

/// A manifest that is accepted has the five fields that are asked for, each once and in any order,
/// and nothing else.
pub proof fn law_manifests_have_five_fields(
    manifest: Seq<u8>,
    version: Seq<u8>,
    architecture: Seq<u8>,
)
    requires
        manifest_rejection(manifest, version, architecture) is None,
    ensures
        ({
            let fields = collected(lines_of(manifest))->Ok_0;
            &&& fields.len() == 5
            &&& fields.contains(("schema".spec_bytes(), "1".spec_bytes()))
            &&& fields.contains(("bundleVersion".spec_bytes(), version))
            &&& fields.contains(("layoutVersion".spec_bytes(), "1".spec_bytes()))
            &&& fields.contains(("protocolVersion".spec_bytes(), "1".spec_bytes()))
            &&& fields.contains(("architecture".spec_bytes(), architecture))
        }),
{
    let fields = collected(lines_of(manifest))->Ok_0;
    let expected = expected_fields(version, architecture);
    assert(fields.contains(expected[0]) && fields.contains(expected[1]) && fields.contains(
        expected[2],
    ) && fields.contains(expected[3]) && fields.contains(expected[4]));
}

/// A bundle is accepted exactly where its layout is complete, its property list names the
/// executable, and its manifest names the build.
pub proof fn law_bundles_are_complete(files: ArtifactFiles<'_>, build: BuildIdentity<'_>)
    ensures
        artifact_rejection(files, build) is None <==> {
            &&& files.complete
            &&& files.plist matches Some(plist) && has_part(
                plist.spec_bytes(),
                EXECUTABLE_METADATA.spec_bytes(),
            )
            &&& files.manifest matches Some(manifest) && manifest_rejection(
                manifest.spec_bytes(),
                build.bundle_version.spec_bytes(),
                build.architecture.spec_bytes(),
            ) is None
        },
        artifact_rejection(files, build) matches Some(error) ==> error.code is ProtocolViolation
            && error.recoverability is Terminal,
{
    if let Some(manifest) = files.manifest {
        lemma_collecting_fails_alike(lines_of(manifest.spec_bytes()));
    }
}

proof fn lemma_collecting_fails_alike(lines: Seq<Seq<u8>>)
    ensures
        collected(lines) matches Err(error) ==> error.code is ProtocolViolation
            && error.recoverability is Terminal,
    decreases lines.len(),
{
    if lines.len() > 0 {
        lemma_collecting_fails_alike(lines.drop_last());
    }
}

} // verus!
