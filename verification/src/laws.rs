//! What holds of every store and of every request: the laws that clients of
//! the server rely on, proved from the definitions of decoding and dispatch.
//!
//! The laws speak of requests handled one after another. A server that
//! gives each request exclusive access to the store for the length of one
//! [`crate::server::NFSServer::handle_request`] meets them in whatever order
//! the requests get that access.

use crate::decode::{
    lemma_read_request_decodes, lemma_write_request_decodes, read_request, request_of_bytes,
    write_request, SEPARATOR_BYTE,
};
use crate::fields::separator_free;
use crate::protocol::{RequestView, ResponseView};
use crate::server::{entries_after, entries_served, response_served, response_to};
use crate::store::Entries;
use vstd::prelude::*;
use vstd::utf8::valid_utf8;

verus! {

/// The store after the requests were handled one after another, the first
/// one first.
pub open spec fn entries_after_all(
    entries: Entries,
    requests: Seq<RequestView>,
) -> Entries
    decreases requests.len(),
{
    if requests.len() == 0 {
        entries
    } else {
        entries_after(entries_after_all(entries, requests.drop_last()), requests.last())
    }
}

/// The request writes under `name`.
pub open spec fn writes_under(request: RequestView, name: Seq<char>) -> bool {
    request matches RequestView::Write(written, _) && written == name
}

/// A content written under a name is what a read of that name then
/// returns, byte for byte.
///
/// The name holds no comma, and the content is valid UTF-8 without a comma:
/// a comma ends a field, and bytes that are not UTF-8 are replaced when the
/// request is read as text.
pub proof fn lemma_round_trip(entries: Entries, name: Seq<char>, content: Seq<u8>)
    requires
        separator_free(name),
        valid_utf8(content),
        !content.contains(SEPARATOR_BYTE),
    ensures
        response_served(entries, write_request(name, content)) == ResponseView::Success,
        response_served(
            entries_served(entries, write_request(name, content)),
            read_request(name),
        ) == ResponseView::Data(content),
{
    lemma_write_request_decodes(name, content);
    lemma_read_request_decodes(name);
}

/// After two writes under one name, a read returns the second content, and
/// leaves the store as it is, so that every later read returns it too.
pub proof fn lemma_overwrite(
    entries: Entries,
    name: Seq<char>,
    first: Seq<u8>,
    second: Seq<u8>,
)
    requires
        separator_free(name),
        valid_utf8(first),
        !first.contains(SEPARATOR_BYTE),
        valid_utf8(second),
        !second.contains(SEPARATOR_BYTE),
    ensures
        ({
            let once = entries_served(entries, write_request(name, first));
            let twice = entries_served(once, write_request(name, second));
            &&& response_served(twice, read_request(name)) == ResponseView::Data(second)
            &&& entries_served(twice, read_request(name)) == twice
        }),
{
    lemma_write_request_decodes(name, first);
    lemma_write_request_decodes(name, second);
    lemma_read_request_decodes(name);
}

/// A read of a name that the store does not hold is answered by the error
/// "not found", never by a content, and changes nothing.
pub proof fn lemma_miss(entries: Entries, name: Seq<char>)
    requires
        separator_free(name),
        !entries.contains_key(name),
    ensures
        response_served(entries, read_request(name)) == ResponseView::Error("not found"@),
        entries_served(entries, read_request(name)) == entries,
{
    lemma_read_request_decodes(name);
}

/// A store holds a name only if it held it before or a request wrote it: a
/// name that was never written is not there.
pub proof fn lemma_never_written(
    entries: Entries,
    requests: Seq<RequestView>,
    name: Seq<char>,
)
    requires
        !entries.contains_key(name),
        forall|i: int| 0 <= i < requests.len() ==> !writes_under(#[trigger] requests[i], name),
    ensures
        !entries_after_all(entries, requests).contains_key(name),
        response_to(entries_after_all(entries, requests), RequestView::Read(name))
            == ResponseView::Error("not found"@),
    decreases requests.len(),
{
    if requests.len() > 0 {
        let front = requests.drop_last();
        assert forall|i: int| 0 <= i < front.len() implies !writes_under(
            #[trigger] front[i],
            name,
        ) by {
            assert(front[i] == requests[i]);
        }
        lemma_never_written(entries, front, name);
        assert(!writes_under(requests[requests.len() - 1], name));
    }
}

/// Two writes under different names give the same store in either order.
pub proof fn lemma_writes_commute(
    entries: Entries,
    name: Seq<char>,
    content: Seq<u8>,
    other_name: Seq<char>,
    other_content: Seq<u8>,
)
    requires
        name != other_name,
    ensures
        entries_after(
            entries_after(entries, RequestView::Write(name, content)),
            RequestView::Write(other_name, other_content),
        ) == entries_after(
            entries_after(entries, RequestView::Write(other_name, other_content)),
            RequestView::Write(name, content),
        ),
{
    assert(entries.insert(name, content).insert(other_name, other_content) =~= entries.insert(
        other_name,
        other_content,
    ).insert(name, content));
}

/// After any number of writes, each under a name of its own, in whatever
/// order they were handled, a read of each name returns the content written
/// under it, and every name that none of them wrote is as it was.
pub proof fn lemma_isolation(
    entries: Entries,
    names: Seq<Seq<char>>,
    contents: Seq<Seq<u8>>,
)
    requires
        names.len() == contents.len(),
        forall|i: int, j: int| 0 <= i < j < names.len() ==> names[i] != names[j],
    ensures
        ({
            let writes = Seq::new(names.len(), |i: int| RequestView::Write(names[i], contents[i]));
            let after = entries_after_all(entries, writes);
            &&& forall|i: int|
                0 <= i < names.len() ==> response_to(after, RequestView::Read(#[trigger] names[i]))
                    == ResponseView::Data(contents[i])
            &&& forall|name: Seq<char>|
                !names.contains(name) ==> after.contains_key(name) == entries.contains_key(name)
                    && after[name] == entries[name]
        }),
    decreases names.len(),
{
    let writes = Seq::new(names.len(), |i: int| RequestView::Write(names[i], contents[i]));
    let after = entries_after_all(entries, writes);
    if names.len() > 0 {
        let last = names.len() - 1;
        let front_names = names.drop_last();
        let front_contents = contents.drop_last();
        let front = Seq::new(
            front_names.len(),
            |i: int| RequestView::Write(front_names[i], front_contents[i]),
        );
        assert(writes.drop_last() =~= front);
        lemma_isolation(entries, front_names, front_contents);
        let before = entries_after_all(entries, front);
        assert(after == before.insert(names[last], contents[last]));
        assert forall|i: int| 0 <= i < names.len() implies response_to(
            after,
            RequestView::Read(#[trigger] names[i]),
        ) == ResponseView::Data(contents[i]) by {
            if i < last {
                assert(front_names[i] == names[i]);
                assert(names[i] != names[last]);
            }
        }
        assert forall|name: Seq<char>| !names.contains(name) implies after.contains_key(name)
            == entries.contains_key(name) && after[name] == entries[name] by {
            assert(names[last] != name);
            assert forall|i: int| 0 <= i < front_names.len() implies front_names[i] != name by {
                assert(front_names[i] == names[i]);
            }
            assert(!front_names.contains(name));
        }
    }
}

/// A write replaces a content in one step. A read of the name that is
/// handled before the write returns the old content in full; one that is
/// handled after it returns the new content in full; and there is no store
/// in between for a read to meet.
pub proof fn lemma_read_beside_write(
    entries: Entries,
    name: Seq<char>,
    content: Seq<u8>,
)
    requires
        entries.contains_key(name),
    ensures
        response_to(entries, RequestView::Read(name)) == ResponseView::Data(entries[name]),
        response_to(
            entries_after(entries, RequestView::Write(name, content)),
            RequestView::Read(name),
        ) == ResponseView::Data(content),
        entries_after(entries, RequestView::Read(name)) == entries,
{
}

/// Bytes that are no request leave every entry as it was and are answered
/// by an error that carries the failure's message.
pub proof fn lemma_malformed_input(entries: Entries, received: Seq<u8>)
    requires
        request_of_bytes(received) is Err,
    ensures
        entries_served(entries, received) == entries,
        response_served(entries, received) == ResponseView::Error(
            request_of_bytes(received)->Err_0.message_text(),
        ),
{
}

} // verus!
