//! The configuration of datasets over multiple TFRecord files.

use crate::codegen::{has_prefix, strip_prefix};
use crate::error::Error;
use crate::indexer::{lemma_index_frames, spec_record_indexes, spec_record_positions, Position, bytes_at};
use crate::io::sync::{try_read_len, try_read_record_data};
use crate::io::{encode_records, spec_read_data, ByteReader};
use vstd::prelude::*;

verus! {

/// The dataset initializer.
#[derive(Debug, Clone, PartialEq, Eq, Hash, Structural)]
pub struct DatasetInit {
    /// Verify the checksum or not.
    pub check_integrity: bool,
    /// Maximum number of open files, a positive number; no limit if it is
    /// `None`.
    pub max_open_files: Option<usize>,
    /// Maximum number of concurrent workers, a positive number; the number
    /// of CPUs if it is `None`.
    pub max_workers: Option<usize>,
}

impl Default for DatasetInit {
    fn default() -> (r: Self)
        ensures
            r.check_integrity,
            r.max_open_files is None,
            r.max_workers is None,
    {
        Self { check_integrity: true, max_open_files: None, max_workers: None }
    }
}

/// Indexing a stream of framed records for a dataset finds every record,
/// in order, where it was written, whether or not checksums are verified.
pub proof fn law_dataset_index_after_write(records: Seq<Seq<u8>>, check_integrity: bool)
    requires
        forall|i: int| 0 <= i < records.len() ==> #[trigger] records[i].len() <= usize::MAX,
        encode_records(records).len() <= u64::MAX,
    ensures
        spec_record_indexes(encode_records(records), 0, check_integrity) == spec_record_positions(
            records,
            0,
        ).map_values(|p: Position| Ok::<(u64, usize), Error>((p.offset, p.len))),
{
    let empty = Seq::<u8>::empty();
    assert(empty + encode_records(records) =~= encode_records(records));
    lemma_index_frames(empty, records, check_integrity);
}

/// Enumerate the (offset, length) pairs of the records of a reader, from
/// its current position, reading each record; the enumeration ends at the
/// end of the stream or after the first error.
pub fn record_index_stream(reader: ByteReader, check_integrity: bool) -> (r: Vec<
    Result<(u64, usize), Error>,
>)
    ensures
        r@ == spec_record_indexes(reader.content(), reader.pos(), check_integrity),
{
    let ghost content = reader.content();
    let ghost pos0 = reader.pos();
    let mut reader = reader;
    let mut out: Vec<Result<(u64, usize), Error>> = Vec::new();
    loop
        invariant_except_break
            reader.content() == content,
            out@ + spec_record_indexes(content, reader.pos(), check_integrity)
                == spec_record_indexes(content, pos0, check_integrity),
        ensures
            out@ == spec_record_indexes(content, pos0, check_integrity),
        decreases (if reader.pos() <= content.len() {
            content.len() - reader.pos() + 1
        } else {
            0
        }),
    {
        let len = match try_read_len(&mut reader, check_integrity) {
            Ok(Some(len)) => len,
            Ok(None) => {
                proof {
                    assert(out@ =~= out@ + Seq::<Result<(u64, usize), Error>>::empty());
                }
                break ;
            },
            Err(err) => {
                out.push(Err(err));
                break ;
            },
        };
        let offset = reader.position();
        proof {
            assert(reader.remaining() == bytes_at(content, offset as nat));
        }
        match try_read_record_data(&mut reader, len, check_integrity) {
            Ok(_) => {
                out.push(Ok((offset, len)));
            },
            Err(err) => {
                out.push(Err(err));
                break ;
            },
        }
    }
    out
}


/// Whether the name `a` comes no later than the name `b`: names are
/// compared character by character by code point, and a name comes before
/// the names that it starts. This is the order of their UTF-8 bytes.
pub open spec fn name_le(a: Seq<char>, b: Seq<char>) -> bool
    decreases a.len(),
{
    if a.len() == 0 {
        true
    } else if b.len() == 0 {
        false
    } else if a[0] != b[0] {
        (a[0] as int) < (b[0] as int)
    } else {
        name_le(a.drop_first(), b.drop_first())
    }
}

/// Any two names are ordered one way or the other.
pub proof fn lemma_name_le_total(a: Seq<char>, b: Seq<char>)
    ensures
        name_le(a, b) || name_le(b, a),
    decreases a.len(),
{
    if a.len() > 0 && b.len() > 0 {
        if a[0] == b[0] {
            lemma_name_le_total(a.drop_first(), b.drop_first());
        }
    }
}

/// The order of names is transitive.
pub proof fn lemma_name_le_transitive(a: Seq<char>, b: Seq<char>, c: Seq<char>)
    requires
        name_le(a, b),
        name_le(b, c),
    ensures
        name_le(a, c),
    decreases a.len(),
{
    if a.len() > 0 && b.len() > 0 && c.len() > 0 && a[0] == b[0] && b[0] == c[0] {
        lemma_name_le_transitive(a.drop_first(), b.drop_first(), c.drop_first());
    }
}

/// Two names that are each no later than the other are the same name.
pub proof fn lemma_name_le_antisymmetric(a: Seq<char>, b: Seq<char>)
    requires
        name_le(a, b),
        name_le(b, a),
    ensures
        a == b,
    decreases a.len(),
{
    if a.len() > 0 && b.len() > 0 {
        lemma_name_le_antisymmetric(a.drop_first(), b.drop_first());
        assert(a =~= seq![a[0]] + a.drop_first());
        assert(b =~= seq![b[0]] + b.drop_first());
    }
}

/// The order of names is the dictionary order by code point: a name comes
/// no later than every name that it starts, and where two names first
/// differ, the one with the smaller code point there comes first.
pub proof fn law_name_order(a: Seq<char>, rest: Seq<char>, b: Seq<char>, i: int)
    ensures
        name_le(a, a + rest),
        (0 <= i < a.len() && i < b.len() && a.take(i) == b.take(i) && (a[i] as int) < (b[i] as int))
            ==> name_le(a, b) && !name_le(b, a),
    decreases a.len(),
{
    if a.len() > 0 {
        assert((a + rest).drop_first() =~= a.drop_first() + rest);
        law_name_order(a.drop_first(), rest, b.drop_first(), i - 1);
        if 0 < i < a.len() && i < b.len() && a.take(i) == b.take(i) {
            assert(a[0] == a.take(i)[0] && b[0] == b.take(i)[0]);
            assert(a.drop_first().take(i - 1) =~= b.drop_first().take(i - 1)) by {
                assert forall|k: int| 0 <= k < i - 1 implies #[trigger] a.drop_first().take(i - 1)[k]
                    == b.drop_first().take(i - 1)[k] by {
                    assert(a.take(i)[k + 1] == b.take(i)[k + 1]);
                }
            }
            assert(a.drop_first()[i - 1] == a[i] && b.drop_first()[i - 1] == b[i]);
        }
    }
}

/// Two sorted sequences of names that hold the same names, as many times
/// each, are the same sequence: sorting a multiset of names has one result.
pub proof fn law_sorted_names_unique(a: Seq<Seq<char>>, b: Seq<Seq<char>>)
    requires
        names_sorted(a),
        names_sorted(b),
        a.to_multiset() == b.to_multiset(),
    ensures
        a == b,
    decreases a.len(),
{
    broadcast use vstd::seq_lib::to_multiset_contains, vstd::seq_lib::to_multiset_len;

    vstd::seq_lib::to_multiset_len(a);
    vstd::seq_lib::to_multiset_len(b);
    if a.len() == 0 {
        assert(b.len() == 0);
        assert(a =~= b);
    } else {
        assert(b.len() == a.len());
        assert(a.to_multiset().count(a[0]) > 0);
        assert(b.to_multiset().count(b[0]) > 0);
        assert(b.contains(a[0]));
        assert(a.contains(b[0]));
        let j = choose|j: int| 0 <= j < b.len() && b[j] == a[0];
        let i = choose|i: int| 0 <= i < a.len() && a[i] == b[0];
        if j > 0 {
            assert(name_le(b[0], b[j]));
        }
        if i > 0 {
            assert(name_le(a[0], a[i]));
        }
        if j == 0 {
            assert(b[0] == a[0]);
        } else if i == 0 {
            assert(a[0] == b[0]);
        } else {
            lemma_name_le_antisymmetric(a[0], b[0]);
        }
        vstd::seq_lib::to_multiset_remove(a, 0);
        vstd::seq_lib::to_multiset_remove(b, 0);
        assert(a.remove(0) =~= a.drop_first());
        assert(b.remove(0) =~= b.drop_first());
        assert(names_sorted(a.drop_first())) by {
            assert forall|x: int, y: int| 0 <= x < y < a.drop_first().len() implies name_le(
                #[trigger] a.drop_first()[x],
                #[trigger] a.drop_first()[y],
            ) by {
                assert(a.drop_first()[x] == a[x + 1] && a.drop_first()[y] == a[y + 1]);
            }
        }
        assert(names_sorted(b.drop_first())) by {
            assert forall|x: int, y: int| 0 <= x < y < b.drop_first().len() implies name_le(
                #[trigger] b.drop_first()[x],
                #[trigger] b.drop_first()[y],
            ) by {
                assert(b.drop_first()[x] == b[x + 1] && b.drop_first()[y] == b[y + 1]);
            }
        }
        law_sorted_names_unique(a.drop_first(), b.drop_first());
        assert(a =~= b) by {
            assert forall|k: int| 0 <= k < a.len() implies a[k] == b[k] by {
                if k > 0 {
                    assert(a.drop_first()[k - 1] == b.drop_first()[k - 1]);
                }
            }
        }
    }
}

/// Compare two names in the order of [name_le].
pub fn name_le_exec(a: &str, b: &str) -> (r: bool)
    ensures
        r == name_le(a@, b@),
{
    let n = a.unicode_len();
    let m = b.unicode_len();
    let mut i: usize = 0;
    proof {
        assert(a@.skip(0) =~= a@);
        assert(b@.skip(0) =~= b@);
    }
    while i < n && i < m
        invariant
            n == a@.len(),
            m == b@.len(),
            i <= n,
            i <= m,
            name_le(a@, b@) == name_le(a@.skip(i as int), b@.skip(i as int)),
        decreases n - i,
    {
        let x = a.get_char(i);
        let y = b.get_char(i);
        if x != y {
            return (x as u32) < (y as u32);
        }
        proof {
            assert(a@.skip(i as int).drop_first() =~= a@.skip(i + 1));
            assert(b@.skip(i as int).drop_first() =~= b@.skip(i + 1));
        }
        i = i + 1;
    }
    i == n
}

/// The views of a sequence of strings.
pub open spec fn string_views(names: Seq<String>) -> Seq<Seq<char>> {
    names.map_values(|s: String| s@)
}

/// Whether names are in the order of [name_le].
pub open spec fn names_sorted(names: Seq<Seq<char>>) -> bool {
    forall|i: int, j: int| 0 <= i < j < names.len() ==> name_le(#[trigger] names[i], #[trigger] names[j])
}

/// Whether a file name is kept for a name prefix: every name when there
/// is no prefix, otherwise the names that start with it.
pub open spec fn name_kept(name: Seq<char>, prefix: Option<Seq<char>>) -> bool {
    match prefix {
        None => true,
        Some(p) => has_prefix(name, p),
    }
}

/// The names that are kept for a name prefix, in their order.
pub open spec fn kept_names(names: Seq<Seq<char>>, prefix: Option<Seq<char>>) -> Seq<Seq<char>> {
    names.filter(|n: Seq<char>| name_kept(n, prefix))
}

/// Insert a name into sorted names, after the names that come no later.
fn insert_sorted(out: &mut Vec<String>, name: String)
    requires
        names_sorted(string_views(old(out)@)),
    ensures
        names_sorted(string_views(final(out)@)),
        string_views(final(out)@).to_multiset() == string_views(old(out)@).to_multiset().insert(
            name@,
        ),
{
    let ghost views = string_views(out@);
    let mut k: usize = 0;
    while k < out.len()
        invariant
            views == string_views(out@),
            out@ == old(out)@,
            k <= out@.len(),
            forall|j: int| 0 <= j < k ==> name_le(#[trigger] views[j], name@),
        ensures
            k <= out@.len(),
            forall|j: int| 0 <= j < k ==> name_le(#[trigger] views[j], name@),
            k < out@.len() ==> !name_le(views[k as int], name@),
        decreases out@.len() - k,
    {
        if !name_le_exec(out[k].as_str(), name.as_str()) {
            break;
        }
        k = k + 1;
    }
    proof {
        if k < views.len() {
            lemma_name_le_total(views[k as int], name@);
        }
    }
    let ghost nv = name@;
    out.insert(k, name);
    proof {
        let new_views = string_views(out@);
        assert(new_views =~= views.insert(k as int, nv));
        assert forall|i: int, j: int| 0 <= i < j < new_views.len() implies name_le(
            #[trigger] new_views[i],
            #[trigger] new_views[j],
        ) by {
            if j < k {
                assert(new_views[i] == views[i] && new_views[j] == views[j]);
            } else if j == k {
                assert(new_views[i] == views[i]);
            } else if i < k {
                assert(new_views[i] == views[i] && new_views[j] == views[j - 1]);
                assert(name_le(views[i], nv));
                lemma_name_le_transitive(views[i], nv, views[k as int]);
                if j - 1 > k {
                    lemma_name_le_transitive(views[i], views[k as int], views[j - 1]);
                }
            } else if i == k {
                assert(new_views[j] == views[j - 1]);
                if j - 1 > k {
                    lemma_name_le_transitive(nv, views[k as int], views[j - 1]);
                }
            } else {
                assert(new_views[i] == views[i - 1] && new_views[j] == views[j - 1]);
            }
        }
        vstd::seq_lib::to_multiset_insert(views, k as int, nv);
    }
}

/// The file names of a directory listing that a dataset opens for a name
/// prefix, in order: every name when there is no prefix, otherwise the
/// names that start with it, sorted by [name_le].
pub fn select_file_names(names: Vec<String>, name_prefix: Option<&str>) -> (r: Vec<String>)
    ensures
        names_sorted(string_views(r@)),
        string_views(r@).to_multiset() == kept_names(
            string_views(names@),
            match name_prefix {
                Some(p) => Some(p@),
                None => None,
            },
        ).to_multiset(),
{
    let ghost pv: Option<Seq<char>> = match name_prefix {
        Some(p) => Some(p@),
        None => None,
    };
    let ghost nv = string_views(names@);
    let mut out: Vec<String> = Vec::new();
    let mut i: usize = 0;
    proof {
        assert(nv.take(0) =~= Seq::<Seq<char>>::empty());
        assert(string_views(out@) =~= Seq::<Seq<char>>::empty());
        assert(kept_names(nv.take(0), pv) =~= Seq::<Seq<char>>::empty());
    }
    while i < names.len()
        invariant
            nv == string_views(names@),
            pv == match name_prefix {
                Some(p) => Some(p@),
                None => None::<Seq<char>>,
            },
            i <= names@.len(),
            names_sorted(string_views(out@)),
            string_views(out@).to_multiset() == kept_names(nv.take(i as int), pv).to_multiset(),
        decreases names@.len() - i,
    {
        let keep = match name_prefix {
            None => true,
            Some(p) => strip_prefix(names[i].as_str(), p).is_some(),
        };
        proof {
            assert(nv.take(i + 1) =~= nv.take(i as int).push(nv[i as int]));
            nv.take(i as int).lemma_filter_push(nv[i as int], |n: Seq<char>| name_kept(n, pv));
            assert(keep == name_kept(nv[i as int], pv));
        }
        if keep {
            let name = names[i].clone();
            proof {
                vstd::seq_lib::to_multiset_build(kept_names(nv.take(i as int), pv), name@);
            }
            insert_sorted(&mut out, name);
        }
        i = i + 1;
    }
    proof {
        assert(nv.take(names@.len() as int) =~= nv);
    }
    out
}

/// The location of a record in a dataset: the number of its file, in the
/// order the files were added, the offset of the record bytes in the file
/// and their length.
#[derive(Debug, Clone, Copy, PartialEq, Eq, Hash, Structural)]
pub struct RecordIndex {
    pub file: usize,
    pub offset: u64,
    pub len: usize,
}

/// The (offset, length) pairs of indexing results when none failed, or the
/// first error.
pub open spec fn collect_indexes(items: Seq<Result<(u64, usize), Error>>) -> Result<
    Seq<(u64, usize)>,
    Error,
>
    decreases items.len(),
{
    if items.len() == 0 {
        Ok(Seq::empty())
    } else {
        match items[0] {
            Err(e) => Err(e),
            Ok(x) => match collect_indexes(items.drop_first()) {
                Ok(rest) => Ok(seq![x] + rest),
                Err(e) => Err(e),
            },
        }
    }
}

/// The record indexes of the (offset, length) pairs of file number `file`.
pub open spec fn tag_file(file: int, items: Seq<(u64, usize)>) -> Seq<RecordIndex> {
    items.map_values(|p: (u64, usize)| RecordIndex { file: file as usize, offset: p.0, len: p.1 })
}

/// Indexing the files with the given contents, file after file: the record
/// indexes of all files, or the first error.
pub open spec fn spec_index_files(contents: Seq<Seq<u8>>, check_integrity: bool) -> Result<
    Seq<RecordIndex>,
    Error,
>
    decreases contents.len(),
{
    if contents.len() == 0 {
        Ok(Seq::empty())
    } else {
        match spec_index_files(contents.drop_last(), check_integrity) {
            Err(e) => Err(e),
            Ok(prev) => match collect_indexes(spec_record_indexes(contents.last(), 0, check_integrity)) {
                Err(e) => Err(e),
                Ok(items) => Ok(prev + tag_file(contents.len() - 1, items)),
            },
        }
    }
}

/// The record indexes of datasets: the records of each file are indexed
/// file after file, and a record is read by its number.
pub struct Dataset {
    record_indexes: Vec<RecordIndex>,
    num_files: usize,
}

impl Dataset {
    /// The record indexes, file after file.
    pub closed spec fn indexes(&self) -> Seq<RecordIndex> {
        self.record_indexes@
    }

    /// The number of files added.
    pub closed spec fn files(&self) -> nat {
        self.num_files as nat
    }

    /// A dataset without files.
    pub fn new() -> (r: Self)
        ensures
            r.indexes() == Seq::<RecordIndex>::empty(),
            r.files() == 0,
    {
        Dataset { record_indexes: Vec::new(), num_files: 0 }
    }

    /// Index the records of the next file, read from the reader's
    /// position; the file gets the next number. When indexing fails, the
    /// error is returned and the dataset is left as it was.
    pub fn add_file(&mut self, reader: ByteReader, check_integrity: bool) -> (r: Result<(), Error>)
        requires
            old(self).files() < usize::MAX,
        ensures
            match collect_indexes(spec_record_indexes(reader.content(), reader.pos(), check_integrity)) {
                Ok(items) => r is Ok && final(self).indexes() == old(self).indexes() + tag_file(
                    old(self).files() as int,
                    items,
                ) && final(self).files() == old(self).files() + 1,
                Err(e) => r == Err::<(), Error>(e) && final(self).indexes() == old(self).indexes()
                    && final(self).files() == old(self).files(),
            },
    {
        let ghost items = spec_record_indexes(reader.content(), reader.pos(), check_integrity);
        let mut found = record_index_stream(reader, check_integrity);
        let file = self.num_files;
        let mut added: Vec<RecordIndex> = Vec::new();
        let mut i: usize = 0;
        while i < found.len() && found[i].is_ok()
            invariant
                found@ == items,
                i <= found@.len(),
                file == old(self).files(),
                forall|k: int| 0 <= k < i ==> #[trigger] items[k] is Ok,
                added@ == tag_file(file as int, items.take(i as int).map_values(
                    |x: Result<(u64, usize), Error>| x->Ok_0,
                )),
            decreases found@.len() - i,
        {
            if let Ok((offset, len)) = &found[i] {
                added.push(RecordIndex { file, offset: *offset, len: *len });
                proof {
                    assert(items.take(i + 1).map_values(
                        |x: Result<(u64, usize), Error>| x->Ok_0,
                    ) =~= items.take(i as int).map_values(
                        |x: Result<(u64, usize), Error>| x->Ok_0,
                    ).push((*offset, *len)));
                    assert(added@ =~= tag_file(file as int, items.take(i + 1).map_values(
                        |x: Result<(u64, usize), Error>| x->Ok_0,
                    )));
                }
            }
            i = i + 1;
        }
        if i < found.len() {
            proof {
                lemma_collect_first_error(items, i as int);
            }
            let item = found.remove(i);
            if let Err(e) = item {
                return Err(e);
            }
        }
        proof {
            lemma_collect_all_ok(items);
            assert(items.take(items.len() as int) =~= items);
        }
        self.record_indexes.append(&mut added);
        self.num_files = file + 1;
        Ok(())
    }

    /// Get the number of indexed records.
    pub fn num_records(&self) -> (r: usize)
        ensures
            r == self.indexes().len(),
    {
        self.record_indexes.len()
    }

    /// Get the index of a record by its number; `None` past the last
    /// record.
    pub fn get(&self, index: usize) -> (r: Option<RecordIndex>)
        ensures
            index < self.indexes().len() ==> r == Some(self.indexes()[index as int]),
            index >= self.indexes().len() ==> r is None,
    {
        if index < self.record_indexes.len() {
            Some(self.record_indexes[index])
        } else {
            None
        }
    }
}

/// When every indexing result is a success, collecting them gives their
/// values, in order.
pub proof fn lemma_collect_all_ok(items: Seq<Result<(u64, usize), Error>>)
    requires
        forall|k: int| 0 <= k < items.len() ==> #[trigger] items[k] is Ok,
    ensures
        collect_indexes(items) == Ok::<Seq<(u64, usize)>, Error>(
            items.map_values(|x: Result<(u64, usize), Error>| x->Ok_0),
        ),
    decreases items.len(),
{
    if items.len() > 0 {
        let tail = items.drop_first();
        assert forall|k: int| 0 <= k < tail.len() implies #[trigger] tail[k] is Ok by {
            assert(tail[k] == items[k + 1]);
        }
        lemma_collect_all_ok(tail);
        assert(items.map_values(|x: Result<(u64, usize), Error>| x->Ok_0) =~= seq![items[0]->Ok_0]
            + tail.map_values(|x: Result<(u64, usize), Error>| x->Ok_0));
    } else {
        assert(items.map_values(|x: Result<(u64, usize), Error>| x->Ok_0) =~= Seq::<
            (u64, usize),
        >::empty());
    }
}

/// Collecting indexing results fails with the first error.
pub proof fn lemma_collect_first_error(items: Seq<Result<(u64, usize), Error>>, i: int)
    requires
        0 <= i < items.len(),
        items[i] is Err,
        forall|k: int| 0 <= k < i ==> #[trigger] items[k] is Ok,
    ensures
        collect_indexes(items) == Err::<Seq<(u64, usize)>, Error>(items[i]->Err_0),
    decreases i,
{
    if i > 0 {
        let tail = items.drop_first();
        assert forall|k: int| 0 <= k < i - 1 implies #[trigger] tail[k] is Ok by {
            assert(tail[k] == items[k + 1]);
        }
        lemma_collect_first_error(tail, i - 1);
    }
}

/// The records of files, file after file.
pub open spec fn flatten_records(files: Seq<Seq<Seq<u8>>>) -> Seq<Seq<u8>>
    decreases files.len(),
{
    if files.len() == 0 {
        Seq::empty()
    } else {
        flatten_records(files.drop_last()) + files.last()
    }
}

/// The contents of files that hold the given records, framed one after
/// another.
pub open spec fn file_contents(files: Seq<Seq<Seq<u8>>>) -> Seq<Seq<u8>> {
    files.map_values(|records: Seq<Seq<u8>>| encode_records(records))
}

/// Where the records of files of framed records lie, file after file.
pub open spec fn spec_dataset_positions(files: Seq<Seq<Seq<u8>>>) -> Seq<RecordIndex>
    decreases files.len(),
{
    if files.len() == 0 {
        Seq::empty()
    } else {
        spec_dataset_positions(files.drop_last()) + spec_record_positions(files.last(), 0).map_values(
            |p: Position| RecordIndex { file: (files.len() - 1) as usize, offset: p.offset, len: p.len },
        )
    }
}

/// Indexing files of framed records, file after file, succeeds, with or
/// without the integrity check, and finds one index per record: the i-th
/// index names the file of the i-th record of all files, and reading the
/// bytes at it gives back that record.
pub proof fn law_index_files_after_write(files: Seq<Seq<Seq<u8>>>, check_integrity: bool)
    requires
        files.len() <= usize::MAX,
        forall|k: int, i: int|
            0 <= k < files.len() && 0 <= i < files[k].len() ==> #[trigger] files[k][i].len()
                <= usize::MAX,
        forall|k: int| 0 <= k < files.len() ==> #[trigger] encode_records(files[k]).len() <= u64::MAX,
    ensures
        spec_index_files(file_contents(files), check_integrity) == Ok::<Seq<RecordIndex>, Error>(
            spec_dataset_positions(files),
        ),
        spec_dataset_positions(files).len() == flatten_records(files).len(),
        forall|i: int|
            0 <= i < spec_dataset_positions(files).len() ==> {
                let idx = #[trigger] spec_dataset_positions(files)[i];
                &&& idx.file < files.len()
                &&& spec_read_data(
                    bytes_at(encode_records(files[idx.file as int]), idx.offset as nat),
                    idx.len as nat,
                    false,
                ).0 == Ok::<Seq<u8>, Error>(flatten_records(files)[i])
            },
    decreases files.len(),
{
    let n = files.len();
    if n > 0 {
        let init = files.drop_last();
        let last = files.last();
        assert(file_contents(files).drop_last() =~= file_contents(init));
        assert(file_contents(files).last() == encode_records(last));
        assert forall|k: int, i: int| 0 <= k < init.len() && 0 <= i < init[k].len() implies #[trigger] init[k][i].len()
            <= usize::MAX by {
            assert(init[k] == files[k]);
        }
        assert forall|k: int| 0 <= k < init.len() implies #[trigger] encode_records(init[k]).len() <= u64::MAX by {
            assert(init[k] == files[k]);
        }
        law_index_files_after_write(init, check_integrity);
        assert forall|i: int| 0 <= i < last.len() implies #[trigger] last[i].len() <= usize::MAX by {
            assert(files[n - 1][i] == last[i]);
        }
        assert(encode_records(files[n - 1]).len() <= u64::MAX);
        let empty = Seq::<u8>::empty();
        assert(empty + encode_records(last) =~= encode_records(last));
        lemma_index_frames(empty, last, check_integrity);
        let ps = spec_record_positions(last, 0);
        let items = spec_record_indexes(encode_records(last), 0, check_integrity);
        assert forall|k: int| 0 <= k < items.len() implies #[trigger] items[k] is Ok by {
        }
        lemma_collect_all_ok(items);
        let pairs = items.map_values(|x: Result<(u64, usize), Error>| x->Ok_0);
        let tagged = ps.map_values(
            |p: Position| RecordIndex { file: (n - 1) as usize, offset: p.offset, len: p.len },
        );
        assert(tag_file(n - 1, pairs) =~= tagged);
        let prev = spec_dataset_positions(init);
        assert(spec_dataset_positions(files) == prev + tagged);
        assert(flatten_records(files) == flatten_records(init) + last);
        assert forall|i: int| 0 <= i < spec_dataset_positions(files).len() implies {
            let idx = #[trigger] spec_dataset_positions(files)[i];
            &&& idx.file < files.len()
            &&& spec_read_data(
                bytes_at(encode_records(files[idx.file as int]), idx.offset as nat),
                idx.len as nat,
                false,
            ).0 == Ok::<Seq<u8>, Error>(flatten_records(files)[i])
        } by {
            if i < prev.len() {
                let idx = prev[i];
                assert(spec_dataset_positions(files)[i] == idx);
                assert(files[idx.file as int] == init[idx.file as int]);
                assert(flatten_records(files)[i] == flatten_records(init)[i]);
            } else {
                let j = i - prev.len();
                assert(spec_dataset_positions(files)[i] == tagged[j]);
                assert(flatten_records(files)[i] == last[j]);
                assert(files[n - 1] == last);
                assert(ps[j].offset == tagged[j].offset);
            }
        }
    }
}

} // verus!
