//! The files through which requests and answers travel: what they are called, which of
//! them are looked at, and in which order.
//!
//! The names are relative to the directory that belongs to a server's socket. They
//! follow the rule of Unix paths that an absolute name stands for itself, wherever it
//! is looked up.

use crate::bytes::copy_bytes;
use crate::protocol::WaitLeaseRequest;
use crate::sequences::{filter_extends, filter_members};
use vstd::prelude::*;
use vstd::relations::{sorted_by, total_ordering};
use vstd::seq_lib::{group_to_multiset_ensures, lemma_sorted_unique};
use vstd::string::{StrSliceExecFns, StringExecFns};

verus! {

/// The largest request file that is read, in bytes.
pub const MAX_REQUEST_BYTES: u64 = 16_384;

/// How many request files are looked at in one round.
pub const MAX_PENDING_REQUESTS: usize = 64;

/// The order of file names: byte by byte, and a name before those it begins.
pub open spec fn name_le(a: Seq<u8>, b: Seq<u8>) -> bool
    decreases a.len(),
{
    if a.len() == 0 {
        true
    } else if b.len() == 0 {
        false
    } else if a.first() != b.first() {
        a.first() < b.first()
    } else {
        name_le(a.drop_first(), b.drop_first())
    }
}

proof fn name_le_reflexive(a: Seq<u8>)
    ensures
        name_le(a, a),
    decreases a.len(),
{
    if a.len() > 0 {
        name_le_reflexive(a.drop_first());
    }
}

proof fn name_le_antisymmetric(a: Seq<u8>, b: Seq<u8>)
    requires
        name_le(a, b),
        name_le(b, a),
    ensures
        a == b,
    decreases a.len(),
{
    if a.len() > 0 && b.len() > 0 {
        name_le_antisymmetric(a.drop_first(), b.drop_first());
        assert(a =~= seq![a.first()] + a.drop_first());
        assert(b =~= seq![b.first()] + b.drop_first());
    } else {
        assert(a =~= b);
    }
}

proof fn name_le_transitive(a: Seq<u8>, b: Seq<u8>, c: Seq<u8>)
    requires
        name_le(a, b),
        name_le(b, c),
    ensures
        name_le(a, c),
    decreases a.len(),
{
    if a.len() > 0 && b.len() > 0 && c.len() > 0 && a.first() == b.first() && b.first()
        == c.first() {
        name_le_transitive(a.drop_first(), b.drop_first(), c.drop_first());
    }
}

proof fn name_le_total(a: Seq<u8>, b: Seq<u8>)
    ensures
        name_le(a, b) || name_le(b, a),
    decreases a.len(),
{
    if a.len() > 0 && b.len() > 0 {
        name_le_total(a.drop_first(), b.drop_first());
    }
}

/// `name_le` as a relation.
pub open spec fn name_order() -> spec_fn(Seq<u8>, Seq<u8>) -> bool {
    |a: Seq<u8>, b: Seq<u8>| name_le(a, b)
}

/// File names are in a total order.
pub proof fn name_order_is_total()
    ensures
        total_ordering(name_order()),
{
    let le = name_order();
    assert forall|a: Seq<u8>| #[trigger] le(a, a) by {
        name_le_reflexive(a);
    }
    assert forall|a: Seq<u8>, b: Seq<u8>| #[trigger] le(a, b) && #[trigger] le(b, a) implies a
        == b by {
        name_le_antisymmetric(a, b);
    }
    assert forall|a: Seq<u8>, b: Seq<u8>, c: Seq<u8>| #[trigger]
        le(a, b) && #[trigger] le(b, c) implies le(a, c) by {
        name_le_transitive(a, b, c);
    }
    assert forall|a: Seq<u8>, b: Seq<u8>| #[trigger] le(a, b) || #[trigger] le(b, a) by {
        name_le_total(a, b);
    }
}

/// The file name ends in `.json` and has something before that.
pub open spec fn is_request_name(name: Seq<u8>) -> bool {
    &&& name.len() > 5
    &&& name.skip(name.len() - 5) == seq![46u8, 106u8, 115u8, 111u8, 110u8]
}

/// File names as byte sequences.
pub open spec fn name_views(names: Seq<Vec<u8>>) -> Seq<Seq<u8>> {
    names.map_values(|name: Vec<u8>| name@)
}

/// The names of the request files among those in a directory, in their order, up to the
/// number that one round looks at.
pub open spec fn pending_names(names: Seq<Seq<u8>>) -> Seq<Seq<u8>> {
    let sorted = names.filter(|name: Seq<u8>| is_request_name(name)).sort_by(name_order());
    if sorted.len() <= MAX_PENDING_REQUESTS {
        sorted
    } else {
        sorted.take(MAX_PENDING_REQUESTS as int)
    }
}

fn request_name(name: &Vec<u8>) -> (r: bool)
    ensures
        r == is_request_name(name@),
{
    let n: usize = name.len();
    let ghost tail = seq![46u8, 106u8, 115u8, 111u8, 110u8];
    if n <= 5 {
        return false;
    }
    let r = name[n - 5] == 46 && name[n - 4] == 106 && name[n - 3] == 115 && name[n - 2] == 111
        && name[n - 1] == 110;
    proof {
        let end = name@.skip(n - 5);
        assert(end[0] == name@[n - 5] && end[1] == name@[n - 4] && end[2] == name@[n - 3] && end[3]
            == name@[n - 2] && end[4] == name@[n - 1]);
        if r {
            assert(end =~= tail);
        }
    }
    r
}

fn name_before(a: &Vec<u8>, b: &Vec<u8>) -> (r: bool)
    ensures
        r == name_le(a@, b@),
{
    let mut i: usize = 0;
    assert(a@.skip(0) =~= a@);
    assert(b@.skip(0) =~= b@);
    loop
        invariant
            i <= a@.len(),
            i <= b@.len(),
            name_le(a@, b@) == name_le(a@.skip(i as int), b@.skip(i as int)),
        decreases a@.len() - i,
    {
        if i == a.len() {
            return true;
        }
        if i == b.len() {
            return false;
        }
        assert(a@.skip(i as int).drop_first() =~= a@.skip(i + 1));
        assert(b@.skip(i as int).drop_first() =~= b@.skip(i + 1));
        if a[i] != b[i] {
            return a[i] < b[i];
        }
        i = i + 1;
    }
}

proof fn inserted_is_sorted(s: Seq<Seq<u8>>, k: int, name: Seq<u8>)
    requires
        0 <= k <= s.len(),
        sorted_by(s, name_order()),
        k > 0 ==> name_le(s[k - 1], name),
        k < s.len() ==> name_le(name, s[k]),
    ensures
        sorted_by(s.insert(k, name), name_order()),
        s.insert(k, name).to_multiset() =~= s.to_multiset().insert(name),
{
    broadcast use group_to_multiset_ensures;

    let le = name_order();
    let t = s.insert(k, name);
    name_order_is_total();
    assert forall|i: int, j: int| 0 <= i < j < t.len() implies #[trigger] le(t[i], t[j]) by {
        let si = if i < k {
            i
        } else {
            i - 1
        };
        let sj = if j < k {
            j
        } else {
            j - 1
        };
        if i != k && j != k {
            assert(le(s[si], s[sj]));
        } else if i == k {
            assert(t[j] == s[sj]);
            assert(le(name, s[k]));
            if k < sj {
                assert(le(s[k], s[sj]));
            }
        } else {
            assert(t[i] == s[si]);
            assert(le(s[k - 1], name));
            if si < k - 1 {
                assert(le(s[si], s[k - 1]));
            }
        }
    }
}

/// Puts a name in its place among names that are in order.
fn insert_name(sorted: &mut Vec<Vec<u8>>, name: Vec<u8>)
    requires
        sorted_by(name_views(old(sorted)@), name_order()),
    ensures
        sorted_by(name_views(final(sorted)@), name_order()),
        name_views(final(sorted)@).to_multiset() == name_views(old(sorted)@).to_multiset().insert(
            name@,
        ),
{
    let ghost views = name_views(sorted@);
    let mut k: usize = sorted.len();
    proof {
        name_order_is_total();
    }
    while k > 0 && !name_before(&sorted[k - 1], &name)
        invariant
            k <= sorted@.len(),
            *sorted == *old(sorted),
            views == name_views(sorted@),
            k < sorted@.len() ==> name_le(name@, views[k as int]),
        decreases k,
    {
        proof {
            assert(views[k - 1] == sorted@[k - 1]@);
            name_le_total(views[k - 1], name@);
        }
        k = k - 1;
    }
    proof {
        if k > 0 {
            assert(views[k - 1] == sorted@[k - 1]@);
        }
        inserted_is_sorted(views, k as int, name@);
    }
    sorted.insert(k, name);
    assert(name_views(sorted@) =~= views.insert(k as int, name@));
}

/// Picks from the file names in the directory of requests those that a round looks at.
pub fn pending_request_names(names: &Vec<Vec<u8>>) -> (pending: Vec<Vec<u8>>)
    ensures
        name_views(pending@) == pending_names(name_views(names@)),
{
    let ghost keep = |name: Seq<u8>| is_request_name(name);
    let ghost views = name_views(names@);
    let mut sorted: Vec<Vec<u8>> = Vec::new();
    let mut i: usize = 0;
    proof {
        broadcast use group_to_multiset_ensures;

        reveal(Seq::filter);
        assert(name_views(sorted@) =~= Seq::<Seq<u8>>::empty());
        assert(views.take(0).filter(keep) =~= Seq::<Seq<u8>>::empty());
    }
    while i < names.len()
        invariant
            i <= names@.len(),
            keep == (|name: Seq<u8>| is_request_name(name)),
            views == name_views(names@),
            sorted_by(name_views(sorted@), name_order()),
            name_views(sorted@).to_multiset() == views.take(i as int).filter(keep).to_multiset(),
        decreases names@.len() - i,
    {
        proof {
            broadcast use group_to_multiset_ensures;

            assert(views[i as int] == names@[i as int]@);
            filter_extends(views, keep, i as int);
        }
        if request_name(&names[i]) {
            insert_name(&mut sorted, copy_bytes(&names[i]));
        }
        i = i + 1;
    }
    proof {
        assert(views.take(i as int) =~= views);
        name_order_is_total();
        let kept = views.filter(keep);
        kept.lemma_sort_by_ensures(name_order());
        lemma_sorted_unique(name_views(sorted@), kept.sort_by(name_order()), name_order());
    }
    let ghost all = name_views(sorted@);
    if sorted.len() > MAX_PENDING_REQUESTS {
        sorted.truncate(MAX_PENDING_REQUESTS);
        assert(name_views(sorted@) =~= all.take(MAX_PENDING_REQUESTS as int));
    }
    sorted
}

/// Whether a request file is one that may be read. Any other is thrown away.
pub fn request_file_is_readable(is_file: bool, len: u64) -> (r: bool)
    ensures
        r == (is_file && len <= MAX_REQUEST_BYTES),
{
    is_file && len <= MAX_REQUEST_BYTES
}

/// How far a request file could be looked at.
#[derive(Debug, Clone, PartialEq, Eq)]
pub enum FoundRequestFile {
    /// It could not be inspected.
    Hidden,
    /// It is there, and so much is known of it.
    Inspected { is_file: bool, len: u64 },
    /// It could not be read.
    Unreadable,
    /// It was read, but holds no request.
    Malformed,
    Parsed { request: WaitLeaseRequest },
}

/// What is done about a request file.
#[derive(Debug, Clone, PartialEq, Eq)]
pub enum RequestFileStep {
    /// Leave it where it is, and go on with the next.
    Skip,
    Read,
    /// Throw it away, and go on with the next.
    Remove,
    /// Answer the request in this round. The file stays until that is done.
    Take { request: WaitLeaseRequest },
}

/// Decides what is done about a request file.
pub fn request_file_step(found: FoundRequestFile) -> (step: RequestFileStep)
    ensures
        step == match found {
            FoundRequestFile::Hidden => RequestFileStep::Skip,
            FoundRequestFile::Inspected { is_file, len } => if is_file && len <= MAX_REQUEST_BYTES {
                RequestFileStep::Read
            } else {
                RequestFileStep::Remove
            },
            FoundRequestFile::Unreadable => RequestFileStep::Remove,
            FoundRequestFile::Malformed => RequestFileStep::Remove,
            FoundRequestFile::Parsed { request } => RequestFileStep::Take { request },
        },
{
    match found {
        FoundRequestFile::Hidden => RequestFileStep::Skip,
        FoundRequestFile::Inspected { is_file, len } => {
            if request_file_is_readable(is_file, len) {
                RequestFileStep::Read
            } else {
                RequestFileStep::Remove
            }
        },
        FoundRequestFile::Unreadable => RequestFileStep::Remove,
        FoundRequestFile::Malformed => RequestFileStep::Remove,
        FoundRequestFile::Parsed { request } => RequestFileStep::Take { request },
    }
}

/// A name looked up in a directory.
pub open spec fn looked_up(directory: Seq<char>, name: Seq<char>) -> Seq<char> {
    if name.len() > 0 && name.first() == '/' {
        name
    } else {
        directory + seq!['/'] + name
    }
}

/// The file of a request.
pub open spec fn request_file(request_id: Seq<char>) -> Seq<char> {
    looked_up("requests"@, request_id + ".json"@)
}

/// The file of the answer to a request.
pub open spec fn response_file(request_id: Seq<char>) -> Seq<char> {
    looked_up("responses"@, request_id + ".json"@)
}

fn look_up(directory: &str, name: &str) -> (r: String)
    ensures
        r@ == looked_up(directory@, name@),
{
    if !name.is_empty() && name.get_char(0) == '/' {
        return name.to_owned();
    }
    proof {
        reveal_strlit("/");
        assert("/"@ =~= seq!['/']);
    }
    directory.to_owned().concat("/").concat(name)
}

/// The file of a request.
pub fn request_path(request_id: &str) -> (r: String)
    ensures
        r@ == request_file(request_id@),
{
    let name = request_id.to_owned().concat(".json");
    look_up("requests", name.as_str())
}

/// The file of the answer to a request.
pub fn response_path(request_id: &str) -> (r: String)
    ensures
        r@ == response_file(request_id@),
{
    let name = request_id.to_owned().concat(".json");
    look_up("responses", name.as_str())
}

/// The directory that belongs to a socket with the given file name, beside the socket.
/// A socket without a name that can be read goes by the usual one.
pub fn wait_lease_root(socket_name: Option<&str>) -> (r: String)
    ensures
        r@ == match socket_name {
            Some(name) => name@,
            None => "herdr.sock"@,
        } + ".wait-leases"@,
{
    let name = match socket_name {
        Some(name) => name,
        None => "herdr.sock",
    };
    name.to_owned().concat(".wait-leases")
}

/// The file that a record is written to before it takes the name it goes by.
pub fn temporary_name(file_name: Option<&str>, suffix: &str) -> (r: String)
    ensures
        r@ == "."@ + match file_name {
            Some(name) => name@,
            None => "wait-lease"@,
        } + "."@ + suffix@ + ".tmp"@,
{
    let name = match file_name {
        Some(name) => name,
        None => "wait-lease",
    };
    ".".to_owned().concat(name).concat(".").concat(suffix).concat(".tmp")
}

/// A name that does not stand for itself.
pub open spec fn is_relative(name: Seq<char>) -> bool {
    name.len() == 0 || name.first() != '/'
}

/// Different requests have different files, and so have their answers.
pub proof fn files_tell_requests_apart(a: Seq<char>, b: Seq<char>)
    requires
        is_relative(a),
        is_relative(b),
        a != b,
    ensures
        request_file(a) != request_file(b),
        response_file(a) != response_file(b),
{
    reveal_strlit(".json");
    reveal_strlit("requests");
    reveal_strlit("responses");
    assert((a + ".json"@).first() != '/' && (b + ".json"@).first() != '/');
    if request_file(a) == request_file(b) {
        assert(request_file(a).subrange(9, 9int + a.len() as int) =~= a);
        assert(request_file(b).subrange(9, 9int + b.len() as int) =~= b);
        assert(request_file(a).len() == 14 + a.len());
        assert(request_file(b).len() == 14 + b.len());
    }
    if response_file(a) == response_file(b) {
        assert(response_file(a).subrange(10, 10int + a.len() as int) =~= a);
        assert(response_file(b).subrange(10, 10int + b.len() as int) =~= b);
        assert(response_file(a).len() == 15 + a.len());
        assert(response_file(b).len() == 15 + b.len());
    }
}

/// No request is mistaken for an answer.
pub proof fn requests_and_answers_are_apart(a: Seq<char>, b: Seq<char>)
    requires
        is_relative(a),
        is_relative(b),
    ensures
        request_file(a) != response_file(b),
{
    reveal_strlit(".json");
    reveal_strlit("requests");
    reveal_strlit("responses");
    assert((a + ".json"@).first() != '/' && (b + ".json"@).first() != '/');
    assert(request_file(a)[2] == 'q');
    assert(response_file(b)[2] == 's');
}

/// File names are ordered by the first byte in which they differ; a name that another one
/// begins with comes before it.
pub proof fn names_are_ordered_by_their_bytes(a: Seq<u8>, b: Seq<u8>, n: int)
    requires
        0 <= n <= a.len(),
        n <= b.len(),
        a.take(n) == b.take(n),
    ensures
        n == a.len() ==> name_le(a, b),
        n < a.len() && n == b.len() ==> !name_le(a, b),
        n < a.len() && n < b.len() && a[n] != b[n] ==> (name_le(a, b) <==> a[n] < b[n]),
    decreases n,
{
    if n > 0 {
        assert(a[0] == a.take(n)[0] && b[0] == b.take(n)[0]);
        assert(a.drop_first().take(n - 1) =~= a.take(n).drop_first());
        assert(b.drop_first().take(n - 1) =~= b.take(n).drop_first());
        names_are_ordered_by_their_bytes(a.drop_first(), b.drop_first(), n - 1);
    }
}

/// A request file is one whose name is something followed by `.json`.
pub proof fn request_names_end_in_json(name: Seq<u8>)
    ensures
        is_request_name(name) <==> {
            &&& name.len() >= 6
            &&& name[name.len() - 5] == 0x2e
            &&& name[name.len() - 4] == 0x6a
            &&& name[name.len() - 3] == 0x73
            &&& name[name.len() - 2] == 0x6f
            &&& name[name.len() - 1] == 0x6e
        },
{
    let end = seq![46u8, 106u8, 115u8, 111u8, 110u8];
    if name.len() >= 6 {
        let tail = name.skip(name.len() - 5);
        assert(tail[0] == name[name.len() - 5] && tail[1] == name[name.len() - 4]);
        assert(tail[2] == name[name.len() - 3] && tail[3] == name[name.len() - 2]);
        assert(tail[4] == name[name.len() - 1]);
        assert(end[0] == 46 && end[1] == 106 && end[2] == 115 && end[3] == 111 && end[4] == 110);
        if tail[0] == 46 && tail[1] == 106 && tail[2] == 115 && tail[3] == 111 && tail[4] == 110 {
            assert(tail =~= end);
        }
    }
}

/// A round looks at request files and at nothing else, in the order of their names, at
/// sixty-four of them at most. It leaves one out only if there are more than that, and then
/// none that it looks at comes after one that it leaves out.
pub proof fn first_requests_are_looked_at(names: Seq<Seq<u8>>)
    ensures
        ({
            let pending = pending_names(names);
            let requests = names.filter(|name: Seq<u8>| is_request_name(name));
            &&& requests.len() <= 64 ==> pending.len() == requests.len()
            &&& requests.len() > 64 ==> pending.len() == 64
            &&& forall|i: int|
                0 <= i < pending.len() ==> names.contains(#[trigger] pending[i]) && is_request_name(
                    pending[i],
                )
            &&& forall|i: int, j: int|
                0 <= i < j < pending.len() ==> name_le(#[trigger] pending[i], #[trigger] pending[j])
            &&& requests.len() <= 64 ==> pending.to_multiset() == requests.to_multiset()
            &&& forall|name: Seq<u8>, i: int|
                #![trigger names.contains(name), pending[i]]
                names.contains(name) && is_request_name(name) && !pending.contains(name) && 0 <= i
                    < pending.len() ==> name_le(pending[i], name)
        }),
{
    broadcast use group_to_multiset_ensures;

    let test = |name: Seq<u8>| is_request_name(name);
    let requests = names.filter(test);
    let sorted = requests.sort_by(name_order());
    let pending = pending_names(names);
    let le = name_order();
    name_order_is_total();
    requests.lemma_sort_by_ensures(name_order());
    filter_members(names, test);
    assert(sorted.len() == requests.len()) by {
        assert(sorted.to_multiset().len() == requests.to_multiset().len());
    }
    assert forall|name: Seq<u8>| sorted.contains(name) <==> requests.contains(name) by {
        assert(sorted.contains(name) <==> sorted.to_multiset().count(name) > 0);
        assert(requests.contains(name) <==> requests.to_multiset().count(name) > 0);
    }
    assert forall|i: int, j: int| 0 <= i < j < sorted.len() implies name_le(
        #[trigger] sorted[i],
        #[trigger] sorted[j],
    ) by {
        assert(le(sorted[i], sorted[j]));
    }
    assert forall|i: int| 0 <= i < pending.len() implies names.contains(#[trigger] pending[i])
        && is_request_name(pending[i]) by {
        assert(pending[i] == sorted[i]);
        assert(sorted.contains(sorted[i]));
        assert(requests.contains(pending[i]));
        assert(test(pending[i]));
    }
    assert forall|name: Seq<u8>, i: int|
        #![trigger names.contains(name), pending[i]]
        names.contains(name) && is_request_name(name) && !pending.contains(name) && 0 <= i
            < pending.len() implies name_le(pending[i], name) by {
        assert(test(name));
        assert(requests.contains(name));
        assert(sorted.contains(name));
        let k = choose|k: int| 0 <= k < sorted.len() && sorted[k] == name;
        if k < pending.len() {
            assert(pending[k] == name);
        }
        assert(pending[i] == sorted[i]);
        assert(name_le(sorted[i], sorted[k]));
    }
}

/// The file of a request and that of its answer lie in their own directories, under the
/// identifier of the request. An absolute identifier stands for itself.
pub proof fn files_lie_in_their_directories(request_id: Seq<char>)
    ensures
        is_relative(request_id) ==> request_file(request_id) == "requests"@ + seq!['/'] + request_id
            + ".json"@,
        is_relative(request_id) ==> response_file(request_id) == "responses"@ + seq!['/']
            + request_id + ".json"@,
        !is_relative(request_id) ==> request_file(request_id) == request_id + ".json"@,
        !is_relative(request_id) ==> response_file(request_id) == request_id + ".json"@,
        is_relative(request_id) <==> request_id.len() == 0 || request_id[0] != '/',
{
    reveal_strlit(".json");
    let name = request_id + ".json"@;
    if is_relative(request_id) {
        assert(name.first() != '/');
        assert("requests"@ + seq!['/'] + request_id + ".json"@ =~= "requests"@ + seq!['/'] + name);
        assert("responses"@ + seq!['/'] + request_id + ".json"@ =~= "responses"@ + seq!['/']
            + name);
    } else {
        assert(name.first() == '/');
    }
}

} // verus!
