//! FRF file decryption and extraction.
//!
//! FRF files are encrypted with a recursive XOR cipher and then contain a ZIP
//! archive with SGO (binary flash data) or ODX XML.

use std::io::Cursor;

use vstd::prelude::*;
use zip::read::ZipArchive;
use zip::result::ZipError;

use crate::text::str_eq;

verus! {

/// The reader `std::io::Cursor`, carried through as it is.
#[verifier::external_type_specification]
#[verifier::external_body]
#[verifier::reject_recursive_types(T)]
pub struct ExCursor<T>(Cursor<T>);

/// The archive type `zip::read::ZipArchive`, carried through as it is.
#[verifier::external_type_specification]
#[verifier::external_body]
#[verifier::reject_recursive_types(R)]
pub struct ExZipArchive<R>(ZipArchive<R>);

/// The error `zip::result::ZipError`, carried through as it is.
#[verifier::external_type_specification]
#[verifier::external_body]
pub struct ExZipError(ZipError);

/// The error `std::io::Error`, carried through as it is.
#[verifier::external_type_specification]
#[verifier::external_body]
pub struct ExIoError(std::io::Error);

/// The bytes an open archive reads from.
pub uninterp spec fn archive_bytes(archive: ZipArchive<Cursor<Vec<u8>>>) -> Seq<u8>;

/// Whether `ZipArchive::new` accepts some bytes as an archive.
pub uninterp spec fn zip_opens(bytes: Seq<u8>) -> bool;

/// The number of entries `ZipArchive::len` gives for an archive.
pub uninterp spec fn zip_count(bytes: Seq<u8>) -> nat;

/// Whether `ZipArchive::by_index` finds an entry it can start to read.
pub uninterp spec fn zip_finds(bytes: Seq<u8>, index: int) -> bool;

/// The name `ZipFile::name` gives for an entry that was found.
pub uninterp spec fn zip_name(bytes: Seq<u8>, index: int) -> Seq<char>;

/// The contents `Read::read_to_end` gives for an entry that was found, where it can
/// be read to its end.
pub uninterp spec fn zip_contents(bytes: Seq<u8>, index: int) -> Option<Seq<u8>>;

/// Why a container could not be extracted.
#[derive(Debug)]
pub enum FrfError {
    /// The decrypted data is not a readable archive.
    InvalidZip(ZipError),
    /// An entry could not be read to its end.
    Io(std::io::Error),
}

/// `ZipArchive::new` opens bytes in memory, or refuses them; which of the two
/// depends on the bytes alone.
#[verifier::external_body]
fn open_archive(bytes: Vec<u8>) -> (r: Result<ZipArchive<Cursor<Vec<u8>>>, ZipError>)
    ensures
        r is Ok <==> zip_opens(bytes@),
        r matches Ok(a) ==> archive_bytes(a) == bytes@,
{
    ZipArchive::new(Cursor::new(bytes))
}

/// `ZipArchive::len` counts the entries, which depends on the bytes alone.
#[verifier::external_body]
fn entry_count(archive: &ZipArchive<Cursor<Vec<u8>>>) -> (n: usize)
    ensures
        n == zip_count(archive_bytes(*archive)),
{
    archive.len()
}

/// `ZipArchive::by_index` looks an entry up, `ZipFile::name` names it and
/// `Read::read_to_end` gives its contents. Whether that succeeds, and what it
/// gives, depends on the bytes of the archive and the index alone; the archive
/// goes on reading from the same bytes.
#[verifier::external_body]
fn read_entry(archive: &mut ZipArchive<Cursor<Vec<u8>>>, index: usize) -> (r: Result<
    (String, Vec<u8>),
    FrfError,
>)
    ensures
        archive_bytes(*final(archive)) == archive_bytes(*old(archive)),
        r is Ok <==> zip_finds(archive_bytes(*old(archive)), index as int) && zip_contents(
            archive_bytes(*old(archive)),
            index as int,
        ) is Some,
        r matches Ok((name, contents)) ==> name@ == zip_name(
            archive_bytes(*old(archive)),
            index as int,
        ) && zip_contents(archive_bytes(*old(archive)), index as int) == Some(contents@),
        r matches Err(e) ==> (e is InvalidZip <==> !zip_finds(
            archive_bytes(*old(archive)),
            index as int,
        )),
{
    let mut entry = archive.by_index(index).map_err(FrfError::InvalidZip)?;
    let name = entry.name().to_owned();
    let mut contents = Vec::new();
    std::io::Read::read_to_end(&mut entry, &mut contents).map_err(FrfError::Io)?;
    Ok((name, contents))
}

/// A file of a container.
pub struct File {
    pub name: Seq<char>,
    pub contents: Seq<u8>,
}

/// What a list of files holds.
pub open spec fn files_of(v: Seq<(String, Vec<u8>)>) -> Seq<File> {
    v.map_values(|f: (String, Vec<u8>)| File { name: f.0@, contents: f.1@ })
}

/// `files` with one more: it takes the place of one with the same name.
pub open spec fn with_file(files: Seq<File>, file: File) -> Seq<File>
    decreases files.len(),
{
    if files.len() == 0 {
        seq![file]
    } else if files[0].name == file.name {
        seq![file] + files.skip(1)
    } else {
        seq![files[0]] + with_file(files.skip(1), file)
    }
}

/// Add a file to a list in which no name occurs twice.
pub fn insert_file(files: &mut Vec<(String, Vec<u8>)>, name: String, contents: Vec<u8>)
    ensures
        files_of(final(files)@) == with_file(
            files_of(old(files)@),
            (File { name: name@, contents: contents@ }),
        ),
{
    let ghost all = files_of(files@);
    let ghost file = File { name: name@, contents: contents@ };
    let mut i: usize = 0;
    assert(all.skip(0) == all);
    assert(all.take(0) + with_file(all.skip(0), file) == with_file(all, file));
    while i < files.len()
        invariant
            i <= files@.len(),
            files@ == old(files)@,
            all == files_of(files@),
            file == (File { name: name@, contents: contents@ }),
            with_file(all, file) == all.take(i as int) + with_file(all.skip(i as int), file),
        decreases files@.len() - i,
    {
        let ghost rest = all.skip(i as int);
        assert(rest[0] == all[i as int]);
        assert(rest.skip(1) == all.skip(i + 1));
        if str_eq(files[i].0.as_str(), name.as_str()) {
            files.set(i, (name, contents));
            assert(files_of(files@) == all.take(i as int) + (seq![file] + all.skip(i + 1)));
            return;
        }
        assert(all.take(i as int) + (seq![rest[0]] + with_file(rest.skip(1), file)) == all.take(
            i + 1,
        ) + with_file(all.skip(i + 1), file));
        i = i + 1;
    }
    assert(all.take(i as int) == all);
    assert(all.skip(i as int).len() == 0);
    files.push((name, contents));
    assert(files_of(files@) == all + seq![file]);
}

/// The first `n` entries of an archive as a list of files. `None` if one of them
/// cannot be read.
pub open spec fn entries_below(bytes: Seq<u8>, n: nat) -> Option<Seq<File>>
    decreases n,
{
    if n == 0 {
        Some(Seq::empty())
    } else {
        match entries_below(bytes, (n - 1) as nat) {
            None => None,
            Some(files) => if zip_finds(bytes, n - 1) {
                match zip_contents(bytes, n - 1) {
                    Some(contents) => Some(
                        with_file(files, File { name: zip_name(bytes, n - 1), contents }),
                    ),
                    None => None,
                }
            } else {
                None
            },
        }
    }
}

/// Entry `i` is the first that cannot be read.
pub open spec fn first_unreadable(bytes: Seq<u8>, i: int) -> bool {
    0 <= i < zip_count(bytes) && entries_below(bytes, i as nat) is Some && entries_below(
        bytes,
        (i + 1) as nat,
    ) is None
}

/// Decrypt a FRF file and extract all files of the archive inside.
///
/// No name occurs twice; of two entries with one name the later counts.
pub fn extract_frf(encrypted_data: &[u8], key: &[u8]) -> (r: Result<Vec<(String, Vec<u8>)>, FrfError>)
    requires
        key@.len() > 0,
    ensures
        ({
            let bytes = decrypted(encrypted_data@, key@);
            let files = entries_below(bytes, zip_count(bytes));
            &&& r is Ok <==> zip_opens(bytes) && files is Some
            &&& r matches Ok(v) ==> files == Some(files_of(v@))
            &&& r matches Err(e) ==> (e is InvalidZip <==> !zip_opens(bytes) || exists|i: int|
                #[trigger] first_unreadable(bytes, i) && !zip_finds(bytes, i))
        }),
{
    let plain = decrypt_frf(encrypted_data, key);
    let ghost bytes = plain@;
    let mut archive = match open_archive(plain) {
        Ok(a) => a,
        Err(e) => {
            return Err(FrfError::InvalidZip(e));
        },
    };
    let count: usize = entry_count(&archive);
    let mut files: Vec<(String, Vec<u8>)> = Vec::new();
    assert(files_of(files@) == Seq::<File>::empty());
    let mut i: usize = 0;
    while i < count
        invariant
            i <= count,
            count == zip_count(bytes),
            archive_bytes(archive) == bytes,
            bytes == decrypted(encrypted_data@, key@),
            zip_opens(bytes),
            entries_below(bytes, i as nat) == Some(files_of(files@)),
        decreases count - i,
    {
        match read_entry(&mut archive, i) {
            Ok((name, contents)) => {
                insert_file(&mut files, name, contents);
            },
            Err(e) => {
                proof {
                    assert(first_unreadable(bytes, i as int));
                    lemma_stays_unreadable(bytes, (i + 1) as nat, count as nat);
                    assert forall|j: int| #[trigger] first_unreadable(bytes, j) implies j == i by {
                        if j < i {
                            lemma_stays_unreadable(bytes, (j + 1) as nat, i as nat);
                        } else if i < j {
                            lemma_stays_unreadable(bytes, (i + 1) as nat, j as nat);
                        }
                    }
                }
                return Err(e);
            },
        }
        i = i + 1;
    }
    Ok(files)
}

proof fn lemma_stays_unreadable(bytes: Seq<u8>, m: nat, n: nat)
    requires
        m <= n,
        entries_below(bytes, m) is None,
    ensures
        entries_below(bytes, n) is None,
    decreases n,
{
    if m < n {
        lemma_stays_unreadable(bytes, m, (n - 1) as nat);
    }
}

/// No name occurs twice in what an archive extracts to.
pub proof fn law_names_are_unique(bytes: Seq<u8>, n: nat)
    requires
        entries_below(bytes, n) is Some,
    ensures
        unique_names(entries_below(bytes, n)->0),
    decreases n,
{
    if n > 0 {
        law_names_are_unique(bytes, (n - 1) as nat);
        lemma_insert_keeps_unique(
            entries_below(bytes, (n - 1) as nat)->0,
            File { name: zip_name(bytes, n - 1), contents: zip_contents(bytes, n - 1)->0 },
        );
    }
}

/// No two files have one name.
pub open spec fn unique_names(files: Seq<File>) -> bool {
    forall|i: int, j: int|
        0 <= i < j < files.len() ==> (#[trigger] files[i]).name != (#[trigger] files[j]).name
}

proof fn lemma_insert_keeps_unique(files: Seq<File>, file: File)
    requires
        unique_names(files),
    ensures
        unique_names(with_file(files, file)),
        forall|i: int|
            0 <= i < with_file(files, file).len() ==> (#[trigger] with_file(files, file)[i]).name
                == file.name || exists|j: int|
                0 <= j < files.len() && (#[trigger] files[j]).name == with_file(files, file)[i].name,
    decreases files.len(),
{
    let out = with_file(files, file);
    if files.len() == 0 {
    } else if files[0].name == file.name {
        assert forall|i: int, j: int| 0 <= i < j < out.len() implies (#[trigger] out[i]).name != (
        #[trigger] out[j]).name by {
            assert(out[j] == files[j]);
            if i > 0 {
                assert(out[i] == files[i]);
            }
        }
        assert forall|i: int| 0 <= i < out.len() implies (#[trigger] out[i]).name == file.name
            || exists|j: int|
            0 <= j < files.len() && (#[trigger] files[j]).name == out[i].name by {
            if i > 0 {
                assert(out[i] == files[i]);
            }
        }
    } else {
        let rest = files.skip(1);
        assert forall|i: int, j: int| 0 <= i < j < rest.len() implies (#[trigger] rest[i]).name != (
        #[trigger] rest[j]).name by {
            assert(rest[i] == files[i + 1] && rest[j] == files[j + 1]);
        }
        lemma_insert_keeps_unique(rest, file);
        let tail = with_file(rest, file);
        assert forall|i: int| 0 <= i < tail.len() implies (#[trigger] tail[i]).name
            != files[0].name by {
            if tail[i].name != file.name {
                let j = choose|j: int|
                    0 <= j < rest.len() && (#[trigger] rest[j]).name == tail[i].name;
                assert(rest[j] == files[j + 1]);
            }
        }
        assert forall|i: int, j: int| 0 <= i < j < out.len() implies (#[trigger] out[i]).name != (
        #[trigger] out[j]).name by {
            assert(out[j] == tail[j - 1]);
            if i > 0 {
                assert(out[i] == tail[i - 1]);
            }
        }
        assert forall|i: int| 0 <= i < out.len() implies (#[trigger] out[i]).name == file.name
            || exists|j: int|
            0 <= j < files.len() && (#[trigger] files[j]).name == out[i].name by {
            if i == 0 {
                assert(files[0].name == out[0].name);
            } else {
                assert(out[i] == tail[i - 1]);
                if tail[i - 1].name != file.name {
                    let j = choose|j: int|
                        0 <= j < rest.len() && (#[trigger] rest[j]).name == tail[i - 1].name;
                    assert(files[j + 1].name == out[i].name);
                }
            }
        }
    }
}

/// The two running values of the cipher before byte `n`.
pub open spec fn seeds(key: Seq<u8>, n: nat) -> (int, int)
    decreases n,
{
    if n == 0 {
        (0, 1)
    } else {
        let (first, second) = seeds(key, (n - 1) as nat);
        let next = ((first + key[(n - 1) % key.len() as int]) * 3) % 256;
        (next, ((second + 1) * next) % 256)
    }
}

/// The byte that is mixed into byte `n`.
pub open spec fn stream(key: Seq<u8>, n: int) -> u8 {
    let first = seeds(key, (n + 1) as nat).0 as u8;
    let second = seeds(key, n as nat).1 as u8;
    first ^ 0xFF ^ second ^ key[n % key.len() as int]
}

/// The cipher: every byte mixed with its place in the stream.
pub open spec fn decrypted(data: Seq<u8>, key: Seq<u8>) -> Seq<u8> {
    Seq::new(data.len(), |i: int| data[i] ^ stream(key, i))
}

/// Decrypt FRF data.
pub fn decrypt_frf(encrypted_data: &[u8], key: &[u8]) -> (out: Vec<u8>)
    requires
        key@.len() > 0,
    ensures
        out@ == decrypted(encrypted_data@, key@),
{
    let mut output: Vec<u8> = Vec::new();
    let mut first: u32 = 0;
    let mut second: u32 = 1;
    let mut i: usize = 0;
    while i < encrypted_data.len()
        invariant
            i <= encrypted_data@.len(),
            key@.len() > 0,
            first < 256,
            second < 256,
            (first as int, second as int) == seeds(key@, i as nat),
            output@ == decrypted(encrypted_data@, key@).take(i as int),
        decreases encrypted_data@.len() - i,
    {
        let key_byte: u8 = key[i % key.len()];
        let before: u8 = second as u8;
        first = ((first + key_byte as u32) * 3) % 256;
        assert((second + 1) * first <= 256 * 255) by (nonlinear_arith)
            requires
                second < 256,
                first < 256,
        ;
        second = ((second + 1) * first) % 256;
        output.push(encrypted_data[i] ^ (first as u8 ^ 0xFF ^ before ^ key_byte));
        assert(seeds(key@, (i + 1) as nat) == (first as int, second as int));
        i = i + 1;
        assert(output@ == decrypted(encrypted_data@, key@).take(i as int));
    }
    assert(decrypted(encrypted_data@, key@).take(i as int) == decrypted(encrypted_data@, key@));
    output
}

/// The cipher is its own inverse, and keeps the length.
pub proof fn law_decrypting_twice_restores(data: Seq<u8>, key: Seq<u8>)
    ensures
        decrypted(data, key).len() == data.len(),
        decrypted(decrypted(data, key), key) == data,
{
    assert forall|i: int| 0 <= i < data.len() implies decrypted(decrypted(data, key), key)[i]
        == data[i] by {
        let d = data[i];
        let k = stream(key, i);
        assert((d ^ k) ^ k == d) by (bit_vector);
    }
    assert(decrypted(decrypted(data, key), key) == data);
}

/// The bytes of a prefix decrypt to the prefix of the whole.
pub proof fn law_decryption_is_bytewise(data: Seq<u8>, key: Seq<u8>, n: int)
    requires
        0 <= n <= data.len(),
    ensures
        decrypted(data.take(n), key) == decrypted(data, key).take(n),
{
    assert(decrypted(data.take(n), key) == decrypted(data, key).take(n));
}

} // verus!
