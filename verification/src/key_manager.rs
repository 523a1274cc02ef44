//! The key store: a map from identifiers to raw key material, held in
//! memory and mirrored, file by file, in the key directory. Beside it the
//! store keeps the public keys that were generated with secret keys, in a
//! map of their own that is mirrored in a directory of its own, so that no
//! public key takes the place of an identifier or of a file of the key
//! directory.

use crate::error::ServiceError;
use crate::layout::{
    file_name_of, file_stem, identifier_of, key_file_name, lemma_file_names_differ, KeyFile,
};
use crate::scheme::{key_belongs, SignScheme};
use crate::text::{decimal, decimal_string, lemma_decimal_injective, str_eq};
use vstd::prelude::*;
use vstd::slice::slice_to_vec;
use vstd::string::*;

verus! {

/// Key material stored under an identifier.
struct KeyRecord {
    identifier: String,
    material: Vec<u8>,
}

/// Whether some record of the list is stored under the identifier.
spec fn holds(records: Seq<KeyRecord>, identifier: Seq<char>) -> bool {
    exists|i: int| 0 <= i < records.len() && #[trigger] records[i].identifier@ == identifier
}

/// Whether no two records of the list share an identifier.
spec fn distinct(records: Seq<KeyRecord>) -> bool {
    forall|i: int, j: int|
        0 <= i < j < records.len() ==> #[trigger] records[i].identifier@
            != #[trigger] records[j].identifier@
}

/// The position of the record stored under the identifier.
spec fn position(records: Seq<KeyRecord>, identifier: Seq<char>) -> int {
    choose|i: int| 0 <= i < records.len() && #[trigger] records[i].identifier@ == identifier
}

/// The map that a list of records stands for.
spec fn records_map(records: Seq<KeyRecord>) -> Map<Seq<char>, Seq<u8>> {
    Map::new(
        |identifier: Seq<char>| holds(records, identifier),
        |identifier: Seq<char>| records[position(records, identifier)].material@,
    )
}

/// In a list without duplicates, the record at a position is the one that
/// the map holds under its identifier.
proof fn lemma_record_at(records: Seq<KeyRecord>, i: int)
    requires
        distinct(records),
        0 <= i < records.len(),
    ensures
        holds(records, records[i].identifier@),
        position(records, records[i].identifier@) == i,
        records_map(records)[records[i].identifier@] == records[i].material@,
{
    let p = position(records, records[i].identifier@);
    assert(0 <= p < records.len() && records[p].identifier@ == records[i].identifier@);
    assert(p == i);
}

/// Appending a record under a new identifier inserts it into the map.
proof fn lemma_push_record(records: Seq<KeyRecord>, record: KeyRecord)
    requires
        distinct(records),
        !holds(records, record.identifier@),
    ensures
        distinct(records.push(record)),
        records_map(records.push(record)) == records_map(records).insert(
            record.identifier@,
            record.material@,
        ),
{
    let longer = records.push(record);
    assert forall|i: int, j: int| 0 <= i < j < longer.len() implies #[trigger] longer[i].identifier@
        != #[trigger] longer[j].identifier@ by {
        assert(longer[i] == records[i]);
        if j == records.len() {
            if records[i].identifier@ == record.identifier@ {
                assert(holds(records, record.identifier@));
            }
        } else {
            assert(longer[j] == records[j]);
        }
    }
    let target = records_map(records).insert(record.identifier@, record.material@);
    assert forall|id: Seq<char>| #[trigger]
        records_map(longer).contains_key(id) == target.contains_key(id) by {
        if holds(longer, id) {
            let p = position(longer, id);
            if p < records.len() {
                assert(records[p].identifier@ == id);
            }
        }
        if holds(records, id) {
            let p = position(records, id);
            assert(longer[p].identifier@ == id);
        }
        if id == record.identifier@ {
            assert(longer[records.len() as int].identifier@ == id);
        }
    }
    assert forall|id: Seq<char>| records_map(longer).contains_key(id) implies #[trigger]
        records_map(longer)[id] == target[id] by {
        let p = position(longer, id);
        lemma_record_at(longer, p);
        if p < records.len() {
            assert(records[p] == longer[p]);
            lemma_record_at(records, p);
        }
    }
    assert(records_map(longer) =~= target);
}

/// Replacing a record by one with the same identifier overwrites the
/// map's entry.
proof fn lemma_replace_record(records: Seq<KeyRecord>, at: int, record: KeyRecord)
    requires
        distinct(records),
        0 <= at < records.len(),
        records[at].identifier@ == record.identifier@,
    ensures
        distinct(records.update(at, record)),
        records_map(records.update(at, record)) == records_map(records).insert(
            record.identifier@,
            record.material@,
        ),
{
    let changed = records.update(at, record);
    assert forall|i: int, j: int|
        0 <= i < j < changed.len() implies #[trigger] changed[i].identifier@
        != #[trigger] changed[j].identifier@ by {
        assert(changed[i].identifier@ == records[i].identifier@);
        assert(changed[j].identifier@ == records[j].identifier@);
    }
    let target = records_map(records).insert(record.identifier@, record.material@);
    assert forall|id: Seq<char>| #[trigger]
        records_map(changed).contains_key(id) == target.contains_key(id) by {
        if holds(changed, id) {
            let p = position(changed, id);
            assert(records[p].identifier@ == id);
        }
        if holds(records, id) {
            let p = position(records, id);
            assert(changed[p].identifier@ == id);
        }
    }
    assert forall|id: Seq<char>| records_map(changed).contains_key(id) implies #[trigger]
        records_map(changed)[id] == target[id] by {
        let p = position(changed, id);
        lemma_record_at(changed, p);
        if p != at {
            assert(records[p] == changed[p]);
            lemma_record_at(records, p);
        }
    }
    assert(records_map(changed) =~= target);
}

/// The position of the record stored under the identifier, if there is one.
fn find(records: &Vec<KeyRecord>, identifier: &str) -> (found: Option<usize>)
    ensures
        match found {
            Some(i) => i < records@.len() && records@[i as int].identifier@ == identifier@,
            None => !holds(records@, identifier@),
        },
{
    let mut i: usize = 0;
    while i < records.len()
        invariant
            i <= records@.len(),
            forall|j: int| 0 <= j < i ==> records@[j].identifier@ != identifier@,
        decreases records@.len() - i,
    {
        if str_eq(records[i].identifier.as_str(), identifier) {
            return Some(i);
        }
        i += 1;
    }
    None
}

/// Stores the material under the identifier, in place of what was there.
fn put(records: &mut Vec<KeyRecord>, identifier: String, material: Vec<u8>)
    requires
        distinct(old(records)@),
    ensures
        distinct(final(records)@),
        records_map(final(records)@) == records_map(old(records)@).insert(
            identifier@,
            material@,
        ),
{
    let found = find(records, identifier.as_str());
    let record = KeyRecord { identifier, material };
    match found {
        Some(i) => {
            proof {
                lemma_replace_record(records@, i as int, record);
            }
            records.set(i, record);
        },
        None => {
            proof {
                lemma_push_record(records@, record);
            }
            records.push(record);
        },
    }
}

/// A byte string that repeats one byte.
pub open spec fn repeated(byte: u8, count: nat) -> Seq<u8> {
    Seq::new(count, |i: int| byte)
}

/// The development keys that every store holds from its start, unless the
/// key directory provides other material under their identifiers.
pub open spec fn default_records() -> Map<Seq<char>, Seq<u8>> {
    Map::<Seq<char>, Seq<u8>>::empty().insert("dilithium_ledger_dev"@, repeated(0, 64)).insert(
        "sphincs_ledger_dev"@,
        repeated(1, 64),
    ).insert("wit1"@, repeated(2, 64)).insert("wit2"@, repeated(3, 64)).insert(
        "wit3"@,
        repeated(4, 64),
    )
}

/// The records that a listing of a key directory provides: every file
/// gives its contents to the identifier that its name stands for, and of
/// two files that stand for one identifier the later one counts.
pub open spec fn loaded_records(files: Seq<KeyFile>) -> Map<Seq<char>, Seq<u8>>
    decreases files.len(),
{
    if files.len() == 0 {
        Map::empty()
    } else {
        loaded_records(files.drop_last()).insert(
            file_stem(files.last().name@),
            files.last().contents@,
        )
    }
}

/// The records of a store that starts from a listing of the key directory:
/// what the directory provides, and the development keys where it provides
/// nothing.
pub open spec fn initial_records(files: Seq<KeyFile>) -> Map<Seq<char>, Seq<u8>> {
    default_records().union_prefer_right(loaded_records(files))
}

/// Whether a file is the one that the key directory holds for the record
/// of an identifier.
pub open spec fn holds_record(
    file: KeyFile,
    records: Map<Seq<char>, Seq<u8>>,
    identifier: Seq<char>,
) -> bool {
    &&& records.contains_key(identifier)
    &&& file.name@ == key_file_name(identifier)
    &&& file.contents@ == records[identifier]
}

/// Whether a file is the one that the key directory holds for some record.
pub open spec fn is_file_of(file: KeyFile, records: Map<Seq<char>, Seq<u8>>) -> bool {
    exists|identifier: Seq<char>| #[trigger] holds_record(file, records, identifier)
}

/// Whether the files hold the one for the record of an identifier.
pub open spec fn has_file(
    files: Seq<KeyFile>,
    records: Map<Seq<char>, Seq<u8>>,
    identifier: Seq<char>,
) -> bool {
    exists|i: int| 0 <= i < files.len() && #[trigger] holds_record(files[i], records, identifier)
}

/// Whether a public key is known to belong to the secret key that a record
/// holds, under one of the schemes.
pub open spec fn belongs_to_record(public: Seq<u8>, material: Seq<u8>) -> bool {
    key_belongs(SignScheme::Dilithium3, public, material) || key_belongs(
        SignScheme::SphincsSha2128f,
        public,
        material,
    )
}

/// The public key that the store hands out for an identifier: the one it
/// keeps for the identifier, provided that the store holds a record under
/// the identifier and the kept key belongs to the record's secret key.
pub open spec fn public_key_of(
    records: Map<Seq<char>, Seq<u8>>,
    public_keys: Map<Seq<char>, Seq<u8>>,
    identifier: Seq<char>,
) -> Option<Seq<u8>> {
    if records.contains_key(identifier) && public_keys.contains_key(identifier)
        && belongs_to_record(public_keys[identifier], records[identifier]) {
        Some(public_keys[identifier])
    } else {
        None
    }
}

/// The identifier made from a clock reading, the reading being counted in
/// nanoseconds since the Unix epoch.
pub open spec fn ephemeral_identifier(nanos: nat) -> Seq<char> {
    "ephemeral_"@ + decimal(nanos)
}

/// The reading that comes a number of steps after another, counting on
/// from zero behind the largest reading.
pub open spec fn reading_after(nanos: nat, offset: nat) -> nat {
    ((nanos + offset) as int % (u128::MAX + 1)) as nat
}

/// Whether `offset` steps lead from a reading to the first one whose
/// identifier the records do not hold.
pub open spec fn first_free_offset(
    records: Map<Seq<char>, Seq<u8>>,
    nanos: nat,
    offset: nat,
) -> bool {
    &&& !records.contains_key(ephemeral_identifier(reading_after(nanos, offset)))
    &&& forall|earlier: nat|
        earlier < offset ==> records.contains_key(
            ephemeral_identifier(#[trigger] reading_after(nanos, earlier)),
        )
}

/// Whether an identifier is the one given to ephemeral key material at a
/// clock reading: the identifier of the reading itself or, where the
/// records hold that already, of the first later reading that is free.
pub open spec fn is_fresh_identifier(
    records: Map<Seq<char>, Seq<u8>>,
    nanos: nat,
    identifier: Seq<char>,
) -> bool {
    exists|offset: nat| #[trigger]
        first_free_offset(records, nanos, offset) && identifier == ephemeral_identifier(
            reading_after(nanos, offset),
        )
}

/// Different clock readings make different identifiers.
pub proof fn lemma_ephemeral_identifiers_differ(first: nat, second: nat)
    requires
        first != second,
    ensures
        ephemeral_identifier(first) != ephemeral_identifier(second),
{
    if ephemeral_identifier(first) == ephemeral_identifier(second) {
        let prefix = "ephemeral_"@.len() as int;
        let a = ephemeral_identifier(first);
        let b = ephemeral_identifier(second);
        assert(decimal(first) =~= a.subrange(prefix, a.len() as int));
        assert(decimal(second) =~= b.subrange(prefix, b.len() as int));
        lemma_decimal_injective(first, second);
    }
}

/// Names that a list of records holds, each a different one, are no more
/// than the records.
proof fn lemma_held_names_bounded(records: Seq<KeyRecord>, names: Seq<Seq<char>>)
    requires
        names.no_duplicates(),
        forall|i: int| 0 <= i < names.len() ==> holds(records, #[trigger] names[i]),
    ensures
        names.len() <= records.len(),
    decreases records.len(),
{
    if names.len() > 0 {
        if records.len() == 0 {
            assert(holds(records, names[0]));
        } else {
            let last = records.last().identifier@;
            let shorter = records.drop_last();
            if exists|k: int| 0 <= k < names.len() && names[k] == last {
                let k = choose|k: int| 0 <= k < names.len() && names[k] == last;
                let rest = names.remove(k);
                assert forall|i: int| 0 <= i < rest.len() implies holds(
                    shorter,
                    #[trigger] rest[i],
                ) by {
                    let from = if i < k {
                        i
                    } else {
                        i + 1
                    };
                    assert(rest[i] == names[from]);
                    assert(holds(records, names[from]));
                    let p = position(records, names[from]);
                    assert(shorter[p].identifier@ == rest[i]);
                }
                assert forall|i: int, j: int|
                    0 <= i < rest.len() && 0 <= j < rest.len() && i != j implies rest[i]
                    != rest[j] by {
                    let from_i = if i < k {
                        i
                    } else {
                        i + 1
                    };
                    let from_j = if j < k {
                        j
                    } else {
                        j + 1
                    };
                    assert(rest[i] == names[from_i] && rest[j] == names[from_j]);
                }
                lemma_held_names_bounded(shorter, rest);
            } else {
                assert forall|i: int| 0 <= i < names.len() implies holds(
                    shorter,
                    #[trigger] names[i],
                ) by {
                    assert(holds(records, names[i]));
                    let p = position(records, names[i]);
                    assert(shorter[p].identifier@ == names[i]);
                }
                lemma_held_names_bounded(shorter, names);
            }
        }
    }
}

/// Where the records hold the identifiers of a run of readings, the run is
/// no longer than the records.
proof fn lemma_taken_readings_bounded(records: Seq<KeyRecord>, nanos: nat, count: nat)
    requires
        nanos <= u128::MAX,
        count <= u64::MAX + 1,
        forall|i: nat|
            i < count ==> holds(
                records,
                ephemeral_identifier(#[trigger] reading_after(nanos, i)),
            ),
    ensures
        count <= records.len(),
{
    let names = Seq::new(count, |i: int| ephemeral_identifier(reading_after(nanos, i as nat)));
    assert forall|i: int, j: int|
        0 <= i < names.len() && 0 <= j < names.len() && i != j implies names[i] != names[j] by {
        assert(reading_after(nanos, i as nat) != reading_after(nanos, j as nat));
        lemma_ephemeral_identifiers_differ(
            reading_after(nanos, i as nat),
            reading_after(nanos, j as nat),
        );
    }
    assert forall|i: int| 0 <= i < names.len() implies holds(records, #[trigger] names[i]) by {
        assert(holds(records, ephemeral_identifier(reading_after(nanos, i as nat))));
    }
    lemma_held_names_bounded(records, names);
}

/// A file of a listing gives its contents to its identifier, unless a later
/// file stands for the same identifier.
proof fn lemma_loaded_from(files: Seq<KeyFile>, at: int)
    requires
        0 <= at < files.len(),
        forall|j: int|
            at < j < files.len() ==> file_stem(#[trigger] files[j].name@) != file_stem(
                files[at].name@,
            ),
    ensures
        loaded_records(files).contains_key(file_stem(files[at].name@)),
        loaded_records(files)[file_stem(files[at].name@)] == files[at].contents@,
    decreases files.len(),
{
    if at < files.len() - 1 {
        let shorter = files.drop_last();
        assert(shorter[at] == files[at]);
        assert forall|j: int| at < j < shorter.len() implies file_stem(
            #[trigger] shorter[j].name@,
        ) != file_stem(shorter[at].name@) by {
            assert(shorter[j] == files[j]);
        }
        lemma_loaded_from(shorter, at);
        assert(file_stem(files[files.len() - 1].name@) != file_stem(files[at].name@));
    }
}

/// A key that was put survives a restart: when the key directory holds the
/// file that `add_key` hands out for a non-empty identifier, and no other
/// file of the directory stands for that identifier, the directory's
/// listing provides the same material under the identifier, and so a store
/// that starts from the listing holds it. The same holds of a public key,
/// the file that `add_public_key` hands out and the listing of the
/// directory of public keys.
pub proof fn lemma_put_survives_restart(files: Seq<KeyFile>, at: int, identifier: Seq<char>)
    requires
        identifier.len() > 0,
        0 <= at < files.len(),
        files[at].name@ == key_file_name(identifier),
        forall|j: int|
            0 <= j < files.len() && j != at ==> file_stem(#[trigger] files[j].name@) != identifier,
    ensures
        loaded_records(files).contains_key(identifier),
        loaded_records(files)[identifier] == files[at].contents@,
        initial_records(files).contains_key(identifier),
        initial_records(files)[identifier] == files[at].contents@,
{
    crate::layout::lemma_file_name_round_trip(identifier);
    assert(file_stem(files[at].name@) == identifier);
    lemma_loaded_from(files, at);
}

/// Every identifier that a listing provides is the stem of one of its
/// files.
proof fn lemma_loaded_has_file(files: Seq<KeyFile>, identifier: Seq<char>)
    requires
        loaded_records(files).contains_key(identifier),
    ensures
        exists|i: int| 0 <= i < files.len() && file_stem(#[trigger] files[i].name@) == identifier,
    decreases files.len(),
{
    if files.len() > 0 {
        if file_stem(files.last().name@) == identifier {
            assert(file_stem(files[files.len() - 1].name@) == identifier);
        } else {
            let shorter = files.drop_last();
            lemma_loaded_has_file(shorter, identifier);
            let i = choose|i: int|
                0 <= i < shorter.len() && file_stem(#[trigger] shorter[i].name@) == identifier;
            assert(files[i] == shorter[i]);
            assert(file_stem(files[i].name@) == identifier);
        }
    }
}

/// A restart loses nothing: a listing that holds the files of a store's
/// records, each once and no other file, provides exactly those records,
/// as long as no identifier is empty. The files that `key_files` hands out
/// make such a listing, in any order, and so do those of
/// `public_key_files` for the public keys.
pub proof fn lemma_restart_restores_records(records: Map<Seq<char>, Seq<u8>>, files: Seq<KeyFile>)
    requires
        forall|id: Seq<char>| #[trigger] records.contains_key(id) ==> id.len() > 0,
        forall|id: Seq<char>| #[trigger] records.contains_key(id) ==> has_file(files, records, id),
        forall|i: int| 0 <= i < files.len() ==> is_file_of(#[trigger] files[i], records),
        forall|i: int, j: int|
            0 <= i < j < files.len() ==> #[trigger] files[i].name@ != #[trigger] files[j].name@,
    ensures
        loaded_records(files) == records,
        initial_records(files) == default_records().union_prefer_right(records),
{
    assert forall|i: int| 0 <= i < files.len() implies records.contains_key(
        file_stem(#[trigger] files[i].name@),
    ) && files[i].name@ == key_file_name(file_stem(files[i].name@)) by {
        let id = choose|id: Seq<char>| #[trigger] holds_record(files[i], records, id);
        crate::layout::lemma_file_name_round_trip(id);
    }
    assert forall|id: Seq<char>| records.contains_key(id) implies #[trigger] loaded_records(
        files,
    ).contains_key(id) && loaded_records(files)[id] == records[id] by {
        let at = choose|i: int|
            0 <= i < files.len() && #[trigger] holds_record(files[i], records, id);
        crate::layout::lemma_file_name_round_trip(id);
        assert(file_stem(files[at].name@) == id);
        assert forall|j: int| at < j < files.len() implies file_stem(#[trigger] files[j].name@)
            != file_stem(files[at].name@) by {
            assert(files[j].name@ == key_file_name(file_stem(files[j].name@)));
            assert(files[at].name@ == key_file_name(file_stem(files[at].name@)));
            assert(files[at].name@ != files[j].name@);
        }
        lemma_loaded_from(files, at);
    }
    assert forall|id: Seq<char>| #[trigger]
        loaded_records(files).contains_key(id) implies records.contains_key(id) by {
        lemma_loaded_has_file(files, id);
        let i = choose|i: int| 0 <= i < files.len() && file_stem(#[trigger] files[i].name@) == id;
        assert(records.contains_key(file_stem(files[i].name@)));
    }
    assert(loaded_records(files) =~= records);
}

/// A byte string that repeats one byte.
fn filled(byte: u8, count: usize) -> (bytes: Vec<u8>)
    ensures
        bytes@ == repeated(byte, count as nat),
{
    let mut bytes: Vec<u8> = Vec::new();
    while bytes.len() < count
        invariant
            bytes@.len() <= count,
            forall|i: int| 0 <= i < bytes@.len() ==> bytes@[i] == byte,
        decreases count - bytes@.len(),
    {
        bytes.push(byte);
    }
    proof {
        assert(bytes@ =~= repeated(byte, count as nat));
    }
    bytes
}

/// Stores 64 bytes of `byte` under the identifier unless the identifier
/// holds material already.
fn seed(records: &mut Vec<KeyRecord>, identifier: &str, byte: u8)
    requires
        distinct(old(records)@),
    ensures
        distinct(final(records)@),
        records_map(final(records)@) == if records_map(old(records)@).contains_key(identifier@) {
            records_map(old(records)@)
        } else {
            records_map(old(records)@).insert(identifier@, repeated(byte, 64))
        },
{
    if find(records, identifier).is_none() {
        put(records, String::from_str(identifier), filled(byte, 64));
    }
}

/// Adds the development keys to the records, each unless its identifier
/// holds material already.
fn generate_default_keys(records: &mut Vec<KeyRecord>)
    requires
        distinct(old(records)@),
    ensures
        distinct(final(records)@),
        records_map(final(records)@) == default_records().union_prefer_right(
            records_map(old(records)@),
        ),
{
    seed(records, "dilithium_ledger_dev", 0);
    seed(records, "sphincs_ledger_dev", 1);
    seed(records, "wit1", 2);
    seed(records, "wit2", 3);
    seed(records, "wit3", 4);
    proof {
        reveal_strlit("dilithium_ledger_dev");
        reveal_strlit("sphincs_ledger_dev");
        reveal_strlit("wit1");
        reveal_strlit("wit2");
        reveal_strlit("wit3");
        assert("wit1"@[3] != "wit2"@[3]);
        assert("wit1"@[3] != "wit3"@[3]);
        assert("wit2"@[3] != "wit3"@[3]);
        assert("dilithium_ledger_dev"@.len() != "sphincs_ledger_dev"@.len());
        assert("dilithium_ledger_dev"@.len() != "wit1"@.len());
        assert("sphincs_ledger_dev"@.len() != "wit1"@.len());
        assert(records_map(records@) =~= default_records().union_prefer_right(
            records_map(old(records)@),
        ));
    }
}

/// Takes over the files of a listing of the key directory, in their order.
fn load_keys(records: &mut Vec<KeyRecord>, files: &[KeyFile])
    requires
        distinct(old(records)@),
    ensures
        distinct(final(records)@),
        records_map(final(records)@) == records_map(old(records)@).union_prefer_right(
            loaded_records(files@),
        ),
{
    let mut i: usize = 0;
    proof {
        assert(files@.subrange(0, 0) =~= Seq::<KeyFile>::empty());
        assert(records_map(records@) =~= records_map(old(records)@).union_prefer_right(
            loaded_records(files@.subrange(0, 0)),
        ));
    }
    while i < files.len()
        invariant
            i <= files@.len(),
            distinct(records@),
            records_map(records@) == records_map(old(records)@).union_prefer_right(
                loaded_records(files@.subrange(0, i as int)),
            ),
        decreases files@.len() - i,
    {
        let identifier = identifier_of(files[i].name.as_str());
        let material = slice_to_vec(files[i].contents.as_slice());
        put(records, identifier, material);
        proof {
            let now = files@.subrange(0, i + 1);
            assert(now.drop_last() =~= files@.subrange(0, i as int));
            assert(now.last() == files@[i as int]);
            assert(records_map(records@) =~= records_map(old(records)@).union_prefer_right(
                loaded_records(now),
            ));
        }
        i += 1;
    }
    proof {
        assert(files@.subrange(0, i as int) =~= files@);
    }
}

/// The identifier made from a clock reading.
fn ephemeral_name(reading: u128) -> (name: String)
    ensures
        name@ == ephemeral_identifier(reading as nat),
{
    let mut name = String::from_str("ephemeral_");
    let digits = decimal_string(reading);
    name.append(digits.as_str());
    name
}

/// Whether a file is the one of a record.
spec fn is_file_for(file: KeyFile, record: KeyRecord) -> bool {
    file.name@ == key_file_name(record.identifier@) && file.contents@ == record.material@
}

/// The files of a list of records, in the order of the records.
fn files_of(records: &Vec<KeyRecord>) -> (files: Vec<KeyFile>)
    ensures
        files@.len() == records@.len(),
        forall|i: int| 0 <= i < files@.len() ==> is_file_for(#[trigger] files@[i], records@[i]),
{
    let mut files: Vec<KeyFile> = Vec::new();
    let mut i: usize = 0;
    while i < records.len()
        invariant
            i <= records@.len(),
            files@.len() == i,
            forall|j: int| 0 <= j < i ==> is_file_for(#[trigger] files@[j], records@[j]),
        decreases records@.len() - i,
    {
        let file = KeyFile {
            name: file_name_of(records[i].identifier.as_str()),
            contents: slice_to_vec(records[i].material.as_slice()),
        };
        assert(is_file_for(file, records@[i as int]));
        files.push(file);
        i += 1;
    }
    files
}

/// The files of a list of records without duplicates are the files of the
/// map that the list stands for: one for every entry, no other, none twice.
proof fn lemma_files_of_records(records: Seq<KeyRecord>, files: Seq<KeyFile>)
    requires
        distinct(records),
        files.len() == records.len(),
        forall|i: int| 0 <= i < files.len() ==> is_file_for(#[trigger] files[i], records[i]),
    ensures
        forall|id: Seq<char>| #[trigger]
            records_map(records).contains_key(id) ==> has_file(files, records_map(records), id),
        forall|i: int| 0 <= i < files.len() ==> is_file_of(#[trigger] files[i], records_map(records)),
        forall|i: int, j: int|
            0 <= i < j < files.len() ==> #[trigger] files[i].name@ != #[trigger] files[j].name@,
{
    let map = records_map(records);
    assert forall|id: Seq<char>| #[trigger] map.contains_key(id) implies has_file(
        files,
        map,
        id,
    ) by {
        let p = position(records, id);
        lemma_record_at(records, p);
        assert(is_file_for(files[p], records[p]));
        assert(holds_record(files[p], map, id));
    }
    assert forall|i: int| 0 <= i < files.len() implies is_file_of(#[trigger] files[i], map) by {
        lemma_record_at(records, i);
        assert(is_file_for(files[i], records[i]));
        assert(holds_record(files[i], map, records[i].identifier@));
    }
    assert forall|i: int, j: int| 0 <= i < j < files.len() implies #[trigger] files[i].name@
        != #[trigger] files[j].name@ by {
        assert(is_file_for(files[i], records[i]));
        assert(is_file_for(files[j], records[j]));
        assert(records[i].identifier@ != records[j].identifier@);
        lemma_file_names_differ(records[i].identifier@, records[j].identifier@);
    }
}

/// The key store.
pub struct KeyManager {
    records: Vec<KeyRecord>,
    public_records: Vec<KeyRecord>,
}

impl View for KeyManager {
    type V = Map<Seq<char>, Seq<u8>>;

    /// The key material that the store holds, by identifier.
    closed spec fn view(&self) -> Map<Seq<char>, Seq<u8>> {
        records_map(self.records@)
    }
}

impl KeyManager {
    #[verifier::type_invariant]
    spec fn well_formed(self) -> bool {
        distinct(self.records@) && distinct(self.public_records@)
    }

    /// The public keys that the store keeps beside its records, by the
    /// identifier of the record that holds the secret key.
    pub closed spec fn public_keys(&self) -> Map<Seq<char>, Seq<u8>> {
        records_map(self.public_records@)
    }

    /// A store that starts from a listing of the key directory, and keeps
    /// no public key yet. The files returned by [`KeyManager::key_files`]
    /// have to be written afterwards, so that the development keys are on
    /// disk before the store is used.
    pub fn new(files: &[KeyFile]) -> (store: KeyManager)
        ensures
            store@ == initial_records(files@),
            store.public_keys() == Map::<Seq<char>, Seq<u8>>::empty(),
    {
        let mut records: Vec<KeyRecord> = Vec::new();
        let public_records: Vec<KeyRecord> = Vec::new();
        proof {
            assert(records_map(records@) =~= Map::<Seq<char>, Seq<u8>>::empty());
            assert(records_map(public_records@) =~= Map::<Seq<char>, Seq<u8>>::empty());
        }
        load_keys(&mut records, files);
        proof {
            assert(records_map(records@) =~= loaded_records(files@));
        }
        generate_default_keys(&mut records);
        KeyManager { records, public_records }
    }

    /// Takes over a listing of the directory of public keys: every file
    /// gives its contents, as a public key, to the identifier that its name
    /// stands for. The records stay as they are. Whether a key belongs to
    /// the secret key of its identifier is found out whenever the key is to
    /// be handed out.
    pub fn load_public_keys(&mut self, files: &[KeyFile])
        ensures
            final(self)@ == old(self)@,
            final(self).public_keys() == old(self).public_keys().union_prefer_right(
                loaded_records(files@),
            ),
    {
        proof {
            use_type_invariant(&*self);
        }
        let mut records: Vec<KeyRecord> = Vec::new();
        std::mem::swap(&mut records, &mut self.public_records);
        load_keys(&mut records, files);
        self.public_records = records;
    }

    /// The material stored under an identifier. Reads the store in memory
    /// only.
    pub fn get_private_key(&self, key_id: &str) -> (r: Result<Vec<u8>, ServiceError>)
        ensures
            match r {
                Ok(material) => self@.contains_key(key_id@) && material@ == self@[key_id@],
                Err(e) => e == ServiceError::KeyNotFound && !self@.contains_key(key_id@),
            },
    {
        proof {
            use_type_invariant(self);
        }
        match find(&self.records, key_id) {
            Some(i) => {
                proof {
                    lemma_record_at(self.records@, i as int);
                }
                Ok(slice_to_vec(self.records[i].material.as_slice()))
            },
            None => Err(ServiceError::KeyNotFound),
        }
    }

    /// The public key of the secret key stored under an identifier: the one
    /// that the store keeps for the identifier, handed out only where it is
    /// known to belong to the secret key as the record holds it now. Fails
    /// with `KeyNotFound` exactly when the store holds no record under the
    /// identifier, and with `PublicKeyUnknown` where it holds one and keeps
    /// no public key that belongs to it.
    pub fn get_public_key(&self, key_id: &str) -> (r: Result<Vec<u8>, ServiceError>)
        ensures
            match r {
                Ok(public) => public_key_of(self@, self.public_keys(), key_id@) == Some(public@),
                Err(e) => public_key_of(self@, self.public_keys(), key_id@) is None && e == if self@.contains_key(
                    key_id@,
                ) {
                    ServiceError::PublicKeyUnknown
                } else {
                    ServiceError::KeyNotFound
                },
            },
    {
        proof {
            use_type_invariant(self);
        }
        let at = match find(&self.records, key_id) {
            Some(at) => at,
            None => {
                return Err(ServiceError::KeyNotFound);
            },
        };
        proof {
            lemma_record_at(self.records@, at as int);
        }
        let secret = self.records[at].material.as_slice();
        match find(&self.public_records, key_id) {
            Some(i) => {
                proof {
                    lemma_record_at(self.public_records@, i as int);
                }
                let public = self.public_records[i].material.as_slice();
                if SignScheme::Dilithium3.public_key_belongs(public, secret)
                    || SignScheme::SphincsSha2128f.public_key_belongs(public, secret) {
                    Ok(slice_to_vec(public))
                } else {
                    Err(ServiceError::PublicKeyUnknown)
                }
            },
            None => Err(ServiceError::PublicKeyUnknown),
        }
    }

    /// The public key that the store keeps for an identifier, be there a
    /// record under the identifier or not, and whether or not the key
    /// belongs to the record.
    pub fn kept_public_key(&self, key_id: &str) -> (kept: Option<Vec<u8>>)
        ensures
            match kept {
                Some(public) => self.public_keys().contains_key(key_id@) && public@
                    == self.public_keys()[key_id@],
                None => !self.public_keys().contains_key(key_id@),
            },
    {
        proof {
            use_type_invariant(self);
        }
        match find(&self.public_records, key_id) {
            Some(i) => {
                proof {
                    lemma_record_at(self.public_records@, i as int);
                }
                Some(slice_to_vec(self.public_records[i].material.as_slice()))
            },
            None => None,
        }
    }

    /// All identifiers of the store, each once.
    pub fn list_keys(&self) -> (names: Vec<String>)
        ensures
            forall|id: Seq<char>|
                self@.contains_key(id) <==> exists|i: int|
                    0 <= i < names@.len() && #[trigger] names@[i]@ == id,
            forall|i: int, j: int|
                0 <= i < j < names@.len() ==> #[trigger] names@[i]@ != #[trigger] names@[j]@,
    {
        proof {
            use_type_invariant(self);
        }
        let mut names: Vec<String> = Vec::new();
        let mut i: usize = 0;
        while i < self.records.len()
            invariant
                i <= self.records@.len(),
                names@.len() == i,
                forall|j: int| 0 <= j < i ==> #[trigger] names@[j]@ == self.records@[j].identifier@,
            decreases self.records@.len() - i,
        {
            names.push(self.records[i].identifier.clone());
            i += 1;
        }
        proof {
            let records = self.records@;
            assert forall|id: Seq<char>| self@.contains_key(id) <==> exists|i: int|
                0 <= i < names@.len() && #[trigger] names@[i]@ == id by {
                if holds(records, id) {
                    let p = position(records, id);
                    assert(names@[p]@ == id);
                }
                if exists|i: int| 0 <= i < names@.len() && #[trigger] names@[i]@ == id {
                    let p = choose|i: int| 0 <= i < names@.len() && #[trigger] names@[i]@ == id;
                    assert(records[p].identifier@ == id);
                }
            }
            assert forall|i: int, j: int| 0 <= i < j < names@.len() implies #[trigger] names@[i]@
                != #[trigger] names@[j]@ by {
                assert(records[i].identifier@ != records[j].identifier@);
            }
        }
        names
    }

    /// All records of the store as files of the key directory: one file for
    /// every record, no other file, and no file twice.
    pub fn key_files(&self) -> (files: Vec<KeyFile>)
        ensures
            forall|id: Seq<char>| #[trigger] self@.contains_key(id) ==> has_file(files@, self@, id),
            forall|i: int| 0 <= i < files@.len() ==> is_file_of(#[trigger] files@[i], self@),
            forall|i: int, j: int|
                0 <= i < j < files@.len() ==> #[trigger] files@[i].name@
                    != #[trigger] files@[j].name@,
    {
        proof {
            use_type_invariant(self);
        }
        let files = files_of(&self.records);
        proof {
            lemma_files_of_records(self.records@, files@);
        }
        files
    }

    /// All public keys that the store keeps as files of the directory of
    /// public keys: one file for every public key, no other file, and no
    /// file twice.
    pub fn public_key_files(&self) -> (files: Vec<KeyFile>)
        ensures
            forall|id: Seq<char>| #[trigger]
                self.public_keys().contains_key(id) ==> has_file(files@, self.public_keys(), id),
            forall|i: int|
                0 <= i < files@.len() ==> is_file_of(#[trigger] files@[i], self.public_keys()),
            forall|i: int, j: int|
                0 <= i < j < files@.len() ==> #[trigger] files@[i].name@
                    != #[trigger] files@[j].name@,
    {
        proof {
            use_type_invariant(self);
        }
        let files = files_of(&self.public_records);
        proof {
            lemma_files_of_records(self.public_records@, files@);
        }
        files
    }

    /// Stores the material under the identifier, in place of what was
    /// there, and hands out the file that has to be written for it.
    pub fn add_key(&mut self, key_id: String, key_data: Vec<u8>) -> (file: KeyFile)
        ensures
            final(self)@ == old(self)@.insert(key_id@, key_data@),
            final(self).public_keys() == old(self).public_keys(),
            file.name@ == key_file_name(key_id@),
            file.contents@ == key_data@,
    {
        proof {
            use_type_invariant(&*self);
        }
        let file = KeyFile {
            name: file_name_of(key_id.as_str()),
            contents: slice_to_vec(key_data.as_slice()),
        };
        let mut records: Vec<KeyRecord> = Vec::new();
        std::mem::swap(&mut records, &mut self.records);
        put(&mut records, key_id, key_data);
        self.records = records;
        file
    }

    /// Keeps a public key for the secret key stored under an identifier, in
    /// place of the one kept before, and hands out the file that has to be
    /// written for it into the directory of public keys. The records stay
    /// as they are. Whether the key belongs to the secret key is not asked
    /// here: it is found out whenever the key is to be handed out.
    pub fn add_public_key(&mut self, key_id: String, key_data: Vec<u8>) -> (file: KeyFile)
        ensures
            final(self)@ == old(self)@,
            final(self).public_keys() == old(self).public_keys().insert(key_id@, key_data@),
            file.name@ == key_file_name(key_id@),
            file.contents@ == key_data@,
    {
        proof {
            use_type_invariant(&*self);
        }
        let file = KeyFile {
            name: file_name_of(key_id.as_str()),
            contents: slice_to_vec(key_data.as_slice()),
        };
        let mut records: Vec<KeyRecord> = Vec::new();
        std::mem::swap(&mut records, &mut self.public_records);
        put(&mut records, key_id, key_data);
        self.public_records = records;
        file
    }

    /// Stores ephemeral key material under a fresh identifier and hands out
    /// the identifier and the file that has to be written. The identifier
    /// is made from the clock reading `nanos`, counted in nanoseconds since
    /// the Unix epoch, or, where the store holds that identifier already,
    /// from the first later reading whose identifier is free. No record of
    /// the store is overwritten.
    pub fn store_ephemeral_key(&mut self, nanos: u128, key_data: &[u8]) -> (stored: (
        String,
        KeyFile,
    ))
        ensures
            is_fresh_identifier(old(self)@, nanos as nat, stored.0@),
            !old(self)@.contains_key(stored.0@),
            final(self)@ == old(self)@.insert(stored.0@, key_data@),
            final(self).public_keys() == old(self).public_keys(),
            stored.1.name@ == key_file_name(stored.0@),
            stored.1.contents@ == key_data@,
    {
        proof {
            use_type_invariant(&*self);
        }
        let count = self.records.len();
        let mut offset: usize = 0;
        let mut reading: u128 = nanos;
        let mut identifier = ephemeral_name(reading);
        while find(&self.records, identifier.as_str()).is_some()
            invariant
                count == self.records@.len(),
                offset <= count,
                reading == reading_after(nanos as nat, offset as nat),
                identifier@ == ephemeral_identifier(reading as nat),
                forall|earlier: nat|
                    earlier < offset ==> holds(
                        self.records@,
                        ephemeral_identifier(#[trigger] reading_after(nanos as nat, earlier)),
                    ),
            decreases self.records@.len() - offset,
        {
            proof {
                lemma_taken_readings_bounded(self.records@, nanos as nat, (offset + 1) as nat);
            }
            offset += 1;
            reading = if reading == u128::MAX {
                0
            } else {
                reading + 1
            };
            identifier = ephemeral_name(reading);
        }
        proof {
            assert(first_free_offset(self@, nanos as nat, offset as nat));
        }
        let file = self.add_key(identifier.clone(), slice_to_vec(key_data));
        (identifier, file)
    }
}

} // verus!
