//! The output stream: a JSON array that receives one object per accepted
//! result as it arrives, closed by an empty object.

use vstd::prelude::*;

use crate::text::{join, views};

verus! {

/// An accepted name and the values that it resolved to.
#[derive(Clone, Debug)]
pub struct ResultsSubDomain {
    pub subdomain: String,
    pub collect: Vec<String>,
}

/// What `serde_json` writes for the JSON string of `s`.
pub uninterp spec fn json_quoted(s: Seq<char>) -> Seq<char>;

/// Relies on `serde_json::to_string` on a `str`: a quoted, escaped JSON
/// string that depends on the characters alone. Serializing a `str` into the
/// in-memory buffer that `to_string` uses cannot fail.
#[verifier::external_body]
fn json_string(s: &str) -> (r: String)
    ensures
        r@ == json_quoted(s@),
{
    serde_json::to_string(s).unwrap()
}

/// The quoted strings of `items`, each followed by a comma but the last.
pub open spec fn json_elements(items: Seq<Seq<char>>) -> Seq<char>
    decreases items.len(),
{
    if items.len() == 0 {
        Seq::empty()
    } else if items.len() == 1 {
        json_quoted(items[0])
    } else {
        json_elements(items.drop_last()) + ","@ + json_quoted(items.last())
    }
}

/// The JSON object written for one result.
pub open spec fn result_json(subdomain: Seq<char>, collect: Seq<Seq<char>>) -> Seq<char> {
    "{\"subdomain\":"@ + json_quoted(subdomain) + ",\"collect\":["@ + json_elements(collect)
        + "]}"@
}

/// What opens the stream.
pub open spec fn stream_head() -> Seq<char> {
    "[\n"@
}

/// What closes the stream: an empty object and the end of the array.
pub open spec fn stream_tail() -> Seq<char> {
    "{}\n]"@
}

/// The text written for one result.
pub open spec fn framed(subdomain: Seq<char>, collect: Seq<Seq<char>>) -> Seq<char> {
    result_json(subdomain, collect) + ",\n"@
}

/// The framed results, in arrival order.
pub open spec fn framed_all(rs: Seq<(Seq<char>, Seq<Seq<char>>)>) -> Seq<char>
    decreases rs.len(),
{
    if rs.len() == 0 {
        Seq::empty()
    } else {
        framed_all(rs.drop_last()) + framed(rs.last().0, rs.last().1)
    }
}

/// The whole stream for the results `rs`, in arrival order.
pub open spec fn stream_text(rs: Seq<(Seq<char>, Seq<Seq<char>>)>) -> Seq<char> {
    stream_head() + framed_all(rs) + stream_tail()
}

/// The stream with the empty object at its end taken out.
pub open spec fn without_sentinel(s: Seq<char>) -> Seq<char> {
    s.subrange(0, s.len() - stream_tail().len()) + "]"@
}

impl ResultsSubDomain {
    pub open spec fn spec_subdomain(&self) -> Seq<char> {
        self.subdomain@
    }

    pub open spec fn spec_collect(&self) -> Seq<Seq<char>> {
        views(self.collect@)
    }
}

/// The JSON object of a result.
pub fn encode_result(r: &ResultsSubDomain) -> (s: String)
    ensures
        s@ == result_json(r.subdomain@, views(r.collect@)),
{
    let mut s = json_string(r.subdomain.as_str());
    s = join("{\"subdomain\":", s.as_str());
    s = join(s.as_str(), ",\"collect\":[");
    let mut i: usize = 0;
    let ghost head = s@;
    while i < r.collect.len()
        invariant
            i <= r.collect.len(),
            s@ == head + json_elements(views(r.collect@).subrange(0, i as int)),
        decreases r.collect.len() - i,
    {
        let ghost prev = views(r.collect@).subrange(0, i as int);
        let ghost next = views(r.collect@).subrange(0, i + 1);
        assert(next.drop_last() =~= prev);
        let q = json_string(r.collect[i].as_str());
        if i > 0 {
            s = join(s.as_str(), ",");
        }
        s = join(s.as_str(), q.as_str());
        proof {
            if i == 0 {
                assert(prev =~= Seq::<Seq<char>>::empty());
                assert(s@ =~= head + json_elements(next));
            } else {
                assert(s@ =~= head + json_elements(next));
            }
        }
        i = i + 1;
    }
    assert(views(r.collect@).subrange(0, r.collect@.len() as int) =~= views(r.collect@));
    join(s.as_str(), "]}")
}

/// The text that opens the stream.
pub fn output_open() -> (s: String)
    ensures
        s@ == stream_head(),
{
    "[\n".to_owned()
}

/// The text written for one result as it arrives.
pub fn frame_item(r: &ResultsSubDomain) -> (s: String)
    ensures
        s@ == framed(r.subdomain@, views(r.collect@)),
{
    let e = encode_result(r);
    join(e.as_str(), ",\n")
}

/// The text that closes the stream.
pub fn output_close() -> (s: String)
    ensures
        s@ == stream_tail(),
{
    "{}\n]".to_owned()
}

/// Taking the empty object out of the end of the stream leaves the array of
/// the accepted results, one object each, in the order in which they arrived.
pub proof fn lemma_stream_without_sentinel(rs: Seq<(Seq<char>, Seq<Seq<char>>)>)
    ensures
        without_sentinel(stream_text(rs)) == stream_head() + framed_all(rs) + "]"@,
{
    reveal_strlit("{}\n]");
    let s = stream_text(rs);
    assert(s.subrange(0, s.len() - stream_tail().len()) =~= stream_head() + framed_all(rs));
}

} // verus!
