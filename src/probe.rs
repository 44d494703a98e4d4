//! The one-time compression probe of a file's embedded signal table.
//!
//! The signal table is an Arrow IPC file. Its last ten bytes are the
//! footer's length (a little-endian `i32`) and the magic `ARROW1`; the footer
//! itself sits right before them. The probe finds the footer, lists the
//! fields of the schema it records, and looks at the `signal` field.
use vstd::prelude::*;

use crate::error::Error;

verus! {

/// The magic that ends an Arrow IPC file.
pub open spec fn arrow_magic() -> Seq<u8> {
    seq![0x41u8, 0x52u8, 0x52u8, 0x4fu8, 0x57u8, 0x31u8]
}

/// The footer length written in the trailer of `b`, read as an unsigned
/// little-endian value; as an `i32` it is negative when the top byte is 128
/// or more.
pub open spec fn trailer_length(b: Seq<u8>) -> int {
    let n = b.len() as int;
    b[n - 10] + 256 * b[n - 9] + 65536 * b[n - 8] + 16777216 * b[n - 7]
}

/// The footer bytes of an Arrow IPC file: `None` when the file is shorter
/// than its trailer, does not end in the magic, or gives a negative footer
/// length or one longer than what precedes the trailer.
pub open spec fn footer_region(b: Seq<u8>) -> Option<Seq<u8>> {
    let n = b.len() as int;
    if n < 10 || b.subrange(n - 6, n) != arrow_magic() || b[n - 7] >= 128 || trailer_length(b) > n - 10 {
        None
    } else {
        Some(b.subrange(n - 10 - trailer_length(b), n - 10))
    }
}

/// The fields of the schema that an IPC footer records, in order, each as
/// its name, whether its declared type is `LargeBinary`, and whether it is
/// dictionary-encoded; `None` when the bytes are not a valid footer or
/// record no schema or no field list.
pub uninterp spec fn footer_schema_fields(footer: Seq<u8>) -> Option<Seq<(Seq<char>, bool, bool)>>;

/// A list of schema fields as plain values.
pub open spec fn fields_view(v: Seq<(String, bool, bool)>) -> Seq<(Seq<char>, bool, bool)> {
    v.map_values(|t: (String, bool, bool)| (t.0@, t.1, t.2))
}

/// Relies on arrow-ipc's `root_as_footer`, which verifies the footer
/// flatbuffer, and on the generated accessors `Footer::schema`,
/// `Schema::fields`, `Field::name`, `Field::type_type` and
/// `Field::dictionary`. A field without a name is listed with the empty
/// name, as arrow's own schema conversion does.
#[verifier::external_body]
fn read_footer_fields(footer: &Vec<u8>) -> (r: Option<Vec<(String, bool, bool)>>)
    ensures
        r matches Some(v) ==> footer_schema_fields(footer@) == Some(fields_view(v@)),
        r is None ==> footer_schema_fields(footer@) is None,
{
    let footer = arrow::ipc::root_as_footer(footer.as_slice()).ok()?;
    let fields = footer.schema()?.fields()?;
    let listed = fields.iter().map(|f| {
        let large_binary = f.type_type() == arrow::ipc::Type::LargeBinary;
        (f.name().unwrap_or_default().to_string(), large_binary, f.dictionary().is_some())
    });
    Some(listed.collect())
}

/// The first field called `name`.
pub open spec fn first_field_named(fields: Seq<(Seq<char>, bool, bool)>, name: Seq<char>) -> Option<
    (Seq<char>, bool, bool),
>
    decreases fields.len(),
{
    if fields.len() == 0 {
        None
    } else if fields[0].0 == name {
        Some(fields[0])
    } else {
        first_field_named(fields.drop_first(), name)
    }
}

/// The compression flag a list of schema fields gives: the signal is
/// compressed when the first field called `signal` is declared `LargeBinary`
/// without dictionary encoding; `None` when there is no such field.
pub open spec fn flag_of_fields(fields: Seq<(Seq<char>, bool, bool)>) -> Option<bool> {
    match first_field_named(fields, "signal"@) {
        Some(f) => Some(f.1 && !f.2),
        None => None,
    }
}

/// What probing a signal table block gives: the compression flag, or `None`
/// when the block has no readable footer, schema or `signal` field.
pub open spec fn compression_of(block: Seq<u8>) -> Option<bool> {
    match footer_region(block) {
        None => None,
        Some(footer) => match footer_schema_fields(footer) {
            None => None,
            Some(fields) => flag_of_fields(fields),
        },
    }
}

/// The message of every failed probe.
pub open spec fn probe_failure(r: Result<bool, Error>) -> bool {
    r matches Err(Error::ArrowCompressionError(m)) && m@ == "unable to determine signal compression"@
}

fn probe_error() -> (e: Error)
    ensures
        e matches Error::ArrowCompressionError(m) && m@ == "unable to determine signal compression"@,
{
    Error::ArrowCompressionError("unable to determine signal compression".to_string())
}

/// The footer bytes of an Arrow IPC file, located by its trailer.
pub fn footer_bytes(block: &Vec<u8>) -> (r: Option<Vec<u8>>)
    ensures
        r matches Some(v) ==> footer_region(block@) == Some(v@),
        r is None ==> footer_region(block@) is None,
{
    let n = block.len();
    if n < 10 {
        return None;
    }
    let magic: [u8; 6] = [0x41, 0x52, 0x52, 0x4f, 0x57, 0x31];
    let mut i: usize = 0;
    while i < 6
        invariant
            10 <= n == block@.len(),
            i <= 6,
            magic@ == arrow_magic(),
            forall|k: int| 0 <= k < i ==> block@[n - 6 + k] == arrow_magic()[k],
        decreases 6 - i,
    {
        if block[n - 6 + i] != magic[i] {
            proof {
                assert(block@.subrange(n - 6, n as int)[i as int] != arrow_magic()[i as int]);
            }
            return None;
        }
        i = i + 1;
    }
    proof {
        assert(block@.subrange(n - 6, n as int) =~= arrow_magic());
    }
    if block[n - 7] >= 128 {
        return None;
    }
    let len: u64 = block[n - 10] as u64 + 256 * (block[n - 9] as u64) + 65536 * (block[n - 8] as u64)
        + 16777216 * (block[n - 7] as u64);
    if len > (n - 10) as u64 {
        return None;
    }
    let start = n - 10 - len as usize;
    let mut out: Vec<u8> = Vec::new();
    let mut k: usize = start;
    while k < n - 10
        invariant
            10 <= n == block@.len(),
            start <= k <= n - 10,
            out@ =~= block@.subrange(start as int, k as int),
        decreases n - 10 - k,
    {
        out.push(block[k]);
        k = k + 1;
    }
    Some(out)
}

/// The compression flag that a footer's field list gives, or the probe's
/// error when there is no list or no `signal` field.
pub fn compression_from_fields(fields: Option<Vec<(String, bool, bool)>>) -> (r: Result<bool, Error>)
    ensures
        fields matches Some(v) ==> match flag_of_fields(fields_view(v@)) {
            Some(b) => r == Ok::<bool, Error>(b),
            None => probe_failure(r),
        },
        fields is None ==> probe_failure(r),
{
    match &fields {
        None => Err(probe_error()),
        Some(v) => {
            let name = "signal".to_string();
            let mut i: usize = 0;
            proof {
                assert(fields_view(v@).subrange(0, v@.len() as int) =~= fields_view(v@));
            }
            while i < v.len()
                invariant
                    fields == Some(*v),
                    i <= v@.len(),
                    name@ == "signal"@,
                    first_field_named(fields_view(v@), "signal"@) == first_field_named(
                        fields_view(v@).subrange(i as int, v@.len() as int),
                        "signal"@,
                    ),
                decreases v@.len() - i,
            {
                proof {
                    let rest = fields_view(v@).subrange(i as int, v@.len() as int);
                    assert(rest.drop_first() =~= fields_view(v@).subrange(i + 1, v@.len() as int));
                    assert(rest[0] == (v@[i as int].0@, v@[i as int].1, v@[i as int].2));
                }
                if v[i].0 == name {
                    return Ok(v[i].1 && !v[i].2);
                }
                i = i + 1;
            }
            proof {
                assert(fields_view(v@).subrange(i as int, v@.len() as int) =~= Seq::empty());
            }
            Err(probe_error())
        },
    }
}

/// Decides whether a file stores its signal compressed, from the bytes of the
/// embedded signal table block that the storage engine locates.
pub fn detect_signal_compression(block: &Vec<u8>) -> (r: Result<bool, Error>)
    ensures
        compression_of(block@) matches Some(b) ==> r == Ok::<bool, Error>(b),
        compression_of(block@) is None ==> probe_failure(r),
{
    match footer_bytes(block) {
        None => Err(probe_error()),
        Some(footer) => compression_from_fields(read_footer_fields(&footer)),
    }
}

/// The probe is a function of the block's bytes: probing the same bytes twice
/// gives the same outcome, flag or error.
pub proof fn lemma_probe_deterministic(first: Seq<u8>, second: Seq<u8>)
    requires
        first == second,
    ensures
        compression_of(first) == compression_of(second),
{
}

} // verus!
