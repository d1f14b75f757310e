//! Fan-out of interactions over a headers exchange: the headers a published
//! interaction carries, the bindings a filtered listener declares, and the
//! broker's any-match rule that connects the two.

use vstd::prelude::*;

use crate::messages::InteractionV;
use crate::model::DeepClone;
use crate::model::Note;
use crate::model::Recipient;
use crate::model::RecipientV;

verus! {

/// One AMQP header an interaction carries or a listener binds on.
pub enum Header {
    /// `v-from-acct-{key}`: the account that originated the interaction.
    FromAcct(String),
    /// `v-to-public`: the public collection is among the recipients.
    ToPublic,
    /// `v-to-acct-{key}`: the account is among the recipients.
    ToAcct(String),
}

/// The specification value of a [`Header`].
pub enum HeaderV {
    FromAcct(Seq<char>),
    ToPublic,
    ToAcct(Seq<char>),
}

impl View for Header {
    type V = HeaderV;

    open spec fn view(&self) -> HeaderV {
        match self {
            Header::FromAcct(k) => HeaderV::FromAcct(k@),
            Header::ToPublic => HeaderV::ToPublic,
            Header::ToAcct(k) => HeaderV::ToAcct(k@),
        }
    }
}

impl DeepView for Header {
    type V = HeaderV;

    open spec fn deep_view(&self) -> HeaderV {
        self@
    }
}

impl DeepClone for Header {
    fn deep_clone(&self) -> (r: Self) {
        match self {
            Header::FromAcct(k) => Header::FromAcct(k.clone()),
            Header::ToPublic => Header::ToPublic,
            Header::ToAcct(k) => Header::ToAcct(k.clone()),
        }
    }
}

/// The key of the account an interaction originates from: the note's
/// publisher, or the account a follow edge starts at. A note without a
/// publisher has no originator.
pub open spec fn spec_originator(i: InteractionV) -> Option<Seq<char>> {
    match i {
        InteractionV::Note(doc) => doc.record.from,
        InteractionV::InitiateFollow(e) => Some(e.from),
        InteractionV::SetFollowAccepted(e) => Some(e.from),
    }
}

/// The recipients of an interaction: every entry of a note's four address
/// lists, or the account a follow edge points to.
pub open spec fn spec_recipients(i: InteractionV) -> Seq<RecipientV> {
    match i {
        InteractionV::Note(doc) => doc.record.to + doc.record.cc + doc.record.bto
            + doc.record.bcc,
        InteractionV::InitiateFollow(e) => seq![RecipientV::Account(e.to)],
        InteractionV::SetFollowAccepted(e) => seq![RecipientV::Account(e.to)],
    }
}

/// Whether an interaction carries a header: `v-from-acct-{k}` exactly for
/// its originator, `v-to-public` exactly when the public collection is
/// among its recipients, and `v-to-acct-{k}` exactly for its account
/// recipients.
pub open spec fn spec_header_derived(i: InteractionV, h: HeaderV) -> bool {
    match h {
        HeaderV::FromAcct(k) => spec_originator(i) == Some(k),
        HeaderV::ToPublic => spec_recipients(i).contains(RecipientV::Public),
        HeaderV::ToAcct(k) => spec_recipients(i).contains(RecipientV::Account(k)),
    }
}

/// Pushing onto a sequence adds exactly that element to its membership.
pub proof fn lemma_contains_push<T>(s: Seq<T>, x: T, y: T)
    ensures
        s.push(x).contains(y) <==> (s.contains(y) || x == y),
{
    if s.contains(y) {
        let w = choose|w: int| 0 <= w < s.len() && s[w] == y;
        assert(s.push(x)[w] == y);
    }
    if x == y {
        assert(s.push(x)[s.len() as int] == y);
    }
    if s.push(x).contains(y) {
        let w = choose|w: int| 0 <= w < s.push(x).len() && s.push(x)[w] == y;
        if w < s.len() {
            assert(s[w] == y);
        }
    }
}

/// The membership law for a growing header list: it holds the originator
/// header, and the recipient headers of the recipients seen so far.
pub open spec fn headers_for_prefix(
    i: InteractionV,
    recs: Seq<RecipientV>,
    hs: Seq<HeaderV>,
) -> bool {
    forall|h: HeaderV|
        #[trigger] hs.contains(h) <==> {
            ||| (h is FromAcct && spec_originator(i) == Some(h->FromAcct_0))
            ||| (h is ToPublic && recs.contains(RecipientV::Public))
            ||| (h is ToAcct && recs.contains(RecipientV::Account(h->ToAcct_0)))
        }
}

/// All recipients of a note, in address-list order.
fn note_recipients(note: &Note) -> (r: Vec<Recipient>)
    ensures
        r.deep_view() == note@.to + note@.cc + note@.bto + note@.bcc,
{
    let mut r = note.to.deep_clone();
    let mut cc = note.cc.deep_clone();
    let mut bto = note.bto.deep_clone();
    let mut bcc = note.bcc.deep_clone();
    r.append(&mut cc);
    r.append(&mut bto);
    r.append(&mut bcc);
    proof {
        assert forall|k: int| 0 <= k < r@.len() implies #[trigger] r.deep_view()[k] == (note@.to
            + note@.cc + note@.bto + note@.bcc)[k] by {
            assert(r.deep_view()[k] == r@[k]@);
        }
        assert(r.deep_view() =~= note@.to + note@.cc + note@.bto + note@.bcc);
    }
    r
}

/// The headers a published interaction carries: `v-from-acct-{k}` exactly
/// for its originator, `v-to-public` exactly when the public collection is
/// among its recipients, and `v-to-acct-{k}` exactly for its account
/// recipients.
#[verifier::loop_isolation(false)]
pub fn interaction_headers(i: &crate::messages::Interaction) -> (r: Vec<Header>)
    ensures
        forall|h: HeaderV| #[trigger] r.deep_view().contains(h) == spec_header_derived(i@, h),
{
    let mut headers: Vec<Header> = Vec::new();
    match i {
        crate::messages::Interaction::Note(doc) => {
            match &doc.record.from {
                Some(from) => {
                    headers.push(Header::FromAcct(from.clone()));
                    proof {
                        assert(headers.deep_view() =~= seq![HeaderV::FromAcct(from@)]);
                        assert(spec_originator(i@) == Some(from@));
                        assert forall|h: HeaderV| #[trigger] headers.deep_view().contains(h)
                            <==> (h is FromAcct && spec_originator(i@) == Some(
                            h->FromAcct_0,
                        )) by {
                            let hs = headers.deep_view();
                            if hs.contains(h) {
                                let w = choose|w: int| 0 <= w < hs.len() && hs[w] == h;
                                assert(h == hs[0]);
                            }
                            if h is FromAcct && spec_originator(i@) == Some(h->FromAcct_0) {
                                assert(hs[0] == h);
                            }
                        }
                    }
                },
                None => {},
            }
            proof {
                assert(headers_for_prefix(i@, Seq::<RecipientV>::empty(), headers.deep_view()));
            }
            let recs = note_recipients(&doc.record);
            let ghost rdv = recs.deep_view();
            proof {
                assert(rdv == spec_recipients(i@));
                assert(rdv.len() == recs@.len());
                assert(rdv.take(0) =~= Seq::<RecipientV>::empty());
            }
            let mut j: usize = 0;
            while j < recs.len()
                invariant
                    j <= recs@.len(),
                    headers_for_prefix(i@, rdv.take(j as int), headers.deep_view()),
                decreases recs@.len() - j,
            {
                let ghost before = headers.deep_view();
                match &recs[j] {
                    Recipient::Public => {
                        headers.push(Header::ToPublic);
                    },
                    Recipient::Account(k) => {
                        headers.push(Header::ToAcct(k.clone()));
                    },
                }
                proof {
                    let pushed = headers@.last()@;
                    assert(rdv[j as int] == recs@[j as int]@);
                    assert(headers.deep_view() =~= before.push(pushed));
                    assert(pushed == (match rdv[j as int] {
                        RecipientV::Public => HeaderV::ToPublic,
                        RecipientV::Account(k) => HeaderV::ToAcct(k),
                    }));
                    assert(rdv.take(j + 1).drop_last() =~= rdv.take(j as int));
                    assert(rdv.take(j + 1).last() == rdv[j as int]);
                    assert forall|h: HeaderV| #[trigger] headers.deep_view().contains(h) <==> {
                        ||| (h is FromAcct && spec_originator(i@) == Some(h->FromAcct_0))
                        ||| (h is ToPublic && rdv.take(j + 1).contains(RecipientV::Public))
                        ||| (h is ToAcct && rdv.take(j + 1).contains(
                            RecipientV::Account(h->ToAcct_0),
                        ))
                    } by {
                        lemma_contains_push(before, pushed, h);
                        lemma_contains_push(
                            rdv.take(j as int),
                            rdv[j as int],
                            RecipientV::Public,
                        );
                        if h is ToAcct {
                            lemma_contains_push(
                                rdv.take(j as int),
                                rdv[j as int],
                                RecipientV::Account(h->ToAcct_0),
                            );
                        }
                        assert(rdv.take(j + 1) =~= rdv.take(j as int).push(rdv[j as int]));
                    }
                }
                j = j + 1;
            }
            proof {
                assert(rdv.take(j as int) =~= rdv);
            }
        },
        crate::messages::Interaction::InitiateFollow(e)
        | crate::messages::Interaction::SetFollowAccepted(e) => {
            headers.push(Header::FromAcct(e.from.clone()));
            headers.push(Header::ToAcct(e.to.clone()));
            proof {
                assert(headers.deep_view() =~= seq![
                    HeaderV::FromAcct(e@.from),
                    HeaderV::ToAcct(e@.to),
                ]);
                assert(spec_recipients(i@) == seq![RecipientV::Account(e@.to)]);
                assert forall|h: HeaderV| #[trigger] headers.deep_view().contains(h)
                    == spec_header_derived(i@, h) by {
                    let hs = headers.deep_view();
                    assert(hs.contains(h) <==> (h == hs[0] || h == hs[1]));
                    assert(spec_recipients(i@).contains(RecipientV::Account(e@.to)));
                    if spec_recipients(i@).contains(RecipientV::Public) {
                        assert(spec_recipients(i@)[0] is Account);
                        assert(false);
                    }
                    if h is ToAcct && spec_recipients(i@).contains(
                        RecipientV::Account(h->ToAcct_0),
                    ) {
                        assert(RecipientV::Account(h->ToAcct_0) == spec_recipients(i@)[0]);
                    }
                }
            }
        },
    }
    headers
}

/// What a listener binds on, and whether it sets the any-match key: with no
/// filters it binds nothing and receives every interaction.
pub struct ListenerBindings {
    pub headers: Vec<Header>,
    pub match_any: bool,
}

/// Whether a listener with the given filters binds a header: the
/// originator headers of the accounts in `from`, the public header when
/// `to` names the public collection, and the recipient headers of the
/// accounts in `to`.
pub open spec fn spec_binding_derived(
    from: Seq<Seq<char>>,
    to: Seq<RecipientV>,
    h: HeaderV,
) -> bool {
    match h {
        HeaderV::FromAcct(k) => from.contains(k),
        HeaderV::ToPublic => to.contains(RecipientV::Public),
        HeaderV::ToAcct(k) => to.contains(RecipientV::Account(k)),
    }
}

/// The bindings a listener declares for the given filters. The any-match
/// key is set exactly when at least one filter was given.
#[verifier::loop_isolation(false)]
pub fn listener_bindings(from: &Vec<String>, to: &Vec<Recipient>) -> (r: ListenerBindings)
    ensures
        forall|h: HeaderV| #[trigger] r.headers.deep_view().contains(h) == spec_binding_derived(
            from.deep_view(),
            to.deep_view(),
            h,
        ),
        r.match_any <==> (from.deep_view().len() > 0 || to.deep_view().len() > 0),
{
    let ghost fdv = from.deep_view();
    let ghost tdv = to.deep_view();
    proof {
        assert(fdv.len() == from@.len());
        assert(tdv.len() == to@.len());
        assert(fdv.take(0) =~= Seq::<Seq<char>>::empty());
        assert(tdv.take(0) =~= Seq::<RecipientV>::empty());
    }
    let mut headers: Vec<Header> = Vec::new();
    let mut j: usize = 0;
    while j < from.len()
        invariant
            j <= from@.len(),
            headers@.len() == j,
            forall|h: HeaderV| #[trigger] headers.deep_view().contains(h) <==> (h is FromAcct
                && fdv.take(j as int).contains(h->FromAcct_0)),
        decreases from@.len() - j,
    {
        let ghost before = headers.deep_view();
        headers.push(Header::FromAcct(from[j].clone()));
        proof {
            assert(fdv[j as int] == from@[j as int]@);
            assert(headers.deep_view() =~= before.push(HeaderV::FromAcct(fdv[j as int])));
            assert(fdv.take(j + 1) =~= fdv.take(j as int).push(fdv[j as int]));
            assert forall|h: HeaderV| #[trigger] headers.deep_view().contains(h) <==> (h
                is FromAcct && fdv.take(j + 1).contains(h->FromAcct_0)) by {
                lemma_contains_push(before, HeaderV::FromAcct(fdv[j as int]), h);
                if h is FromAcct {
                    lemma_contains_push(fdv.take(j as int), fdv[j as int], h->FromAcct_0);
                }
            }
        }
        j = j + 1;
    }
    proof {
        assert(fdv.take(j as int) =~= fdv);
    }
    let mut k: usize = 0;
    while k < to.len()
        invariant
            k <= to@.len(),
            headers@.len() == from@.len() + k,
            forall|h: HeaderV| #[trigger] headers.deep_view().contains(h) <==> {
                ||| (h is FromAcct && fdv.contains(h->FromAcct_0))
                ||| (h is ToPublic && tdv.take(k as int).contains(RecipientV::Public))
                ||| (h is ToAcct && tdv.take(k as int).contains(RecipientV::Account(h->ToAcct_0)))
            },
        decreases to@.len() - k,
    {
        let ghost before = headers.deep_view();
        match &to[k] {
            Recipient::Public => {
                headers.push(Header::ToPublic);
            },
            Recipient::Account(key) => {
                headers.push(Header::ToAcct(key.clone()));
            },
        }
        proof {
            let pushed = headers@.last()@;
            assert(tdv[k as int] == to@[k as int]@);
            assert(headers.deep_view() =~= before.push(pushed));
            assert(pushed == (match tdv[k as int] {
                RecipientV::Public => HeaderV::ToPublic,
                RecipientV::Account(key) => HeaderV::ToAcct(key),
            }));
            assert(tdv.take(k + 1) =~= tdv.take(k as int).push(tdv[k as int]));
            assert forall|h: HeaderV| #[trigger] headers.deep_view().contains(h) <==> {
                ||| (h is FromAcct && fdv.contains(h->FromAcct_0))
                ||| (h is ToPublic && tdv.take(k + 1).contains(RecipientV::Public))
                ||| (h is ToAcct && tdv.take(k + 1).contains(RecipientV::Account(h->ToAcct_0)))
            } by {
                lemma_contains_push(before, pushed, h);
                lemma_contains_push(tdv.take(k as int), tdv[k as int], RecipientV::Public);
                if h is ToAcct {
                    lemma_contains_push(
                        tdv.take(k as int),
                        tdv[k as int],
                        RecipientV::Account(h->ToAcct_0),
                    );
                }
            }
        }
        k = k + 1;
    }
    proof {
        assert(tdv.take(k as int) =~= tdv);
    }
    let match_any = headers.len() > 0;
    ListenerBindings { headers, match_any }
}

/// The broker's any-match rule for a headers binding: a message is
/// delivered when the listener binds no headers at all, or when any bound
/// header appears among the message's headers.
pub open spec fn spec_delivers(binding: Seq<HeaderV>, match_any: bool, msg: Seq<HeaderV>) -> bool {
    !match_any || exists|h: HeaderV| #[trigger] binding.contains(h) && msg.contains(h)
}

/// Whether two headers are the same header.
fn header_eq(a: &Header, b: &Header) -> (r: bool)
    ensures
        r == (a@ == b@),
{
    match (a, b) {
        (Header::FromAcct(x), Header::ToAcct(y)) => false,
        (Header::ToAcct(x), Header::FromAcct(y)) => false,
        (Header::FromAcct(x), Header::FromAcct(y)) => *x == *y,
        (Header::ToAcct(x), Header::ToAcct(y)) => *x == *y,
        (Header::ToPublic, Header::ToPublic) => true,
        _ => false,
    }
}

/// Whether `v` holds the header `h`.
#[verifier::loop_isolation(false)]
fn contains_header(v: &Vec<Header>, h: &Header) -> (r: bool)
    ensures
        r == v.deep_view().contains(h@),
{
    let mut i: usize = 0;
    while i < v.len()
        invariant
            i <= v@.len(),
            forall|k: int| 0 <= k < i ==> (#[trigger] v.deep_view()[k]) != h@,
        decreases v@.len() - i,
    {
        if header_eq(&v[i], h) {
            proof {
                assert(v.deep_view()[i as int] == h@);
            }
            return true;
        }
        i = i + 1;
    }
    proof {
        if v.deep_view().contains(h@) {
            let w = choose|w: int| 0 <= w < v.deep_view().len() && v.deep_view()[w] == h@;
            assert(v.deep_view()[w] != h@);
        }
    }
    false
}

/// Whether the broker delivers a message with headers `msg` to a listener
/// with these bindings.
#[verifier::loop_isolation(false)]
pub fn delivers(b: &ListenerBindings, msg: &Vec<Header>) -> (r: bool)
    ensures
        r == spec_delivers(b.headers.deep_view(), b.match_any, msg.deep_view()),
{
    if !b.match_any {
        return true;
    }
    let mut i: usize = 0;
    while i < b.headers.len()
        invariant
            i <= b.headers@.len(),
            forall|k: int|
                0 <= k < i ==> !msg.deep_view().contains(#[trigger] b.headers.deep_view()[k]),
        decreases b.headers@.len() - i,
    {
        if contains_header(msg, &b.headers[i]) {
            proof {
                assert(b.headers.deep_view().contains(b.headers.deep_view()[i as int]));
            }
            return true;
        }
        i = i + 1;
    }
    proof {
        if exists|h: HeaderV| #[trigger] b.headers.deep_view().contains(h) && msg.deep_view().contains(h) {
            let h = choose|h: HeaderV| #[trigger] b.headers.deep_view().contains(h)
                && msg.deep_view().contains(h);
            let w = choose|w: int|
                0 <= w < b.headers.deep_view().len() && b.headers.deep_view()[w] == h;
            assert(!msg.deep_view().contains(b.headers.deep_view()[w]));
        }
    }
    false
}

/// Filter completeness: a listener receives an interaction exactly when it
/// set no filters at all, when one of its `from` filters names the
/// interaction's originator, or when one of its `to` filters matches one of
/// the interaction's recipients.
pub proof fn lemma_filter_completeness(
    from: Seq<Seq<char>>,
    to: Seq<RecipientV>,
    i: InteractionV,
    bh: Seq<HeaderV>,
    match_any: bool,
    mh: Seq<HeaderV>,
)
    requires
        forall|h: HeaderV| #[trigger] bh.contains(h) == spec_binding_derived(from, to, h),
        match_any <==> (from.len() > 0 || to.len() > 0),
        forall|h: HeaderV| #[trigger] mh.contains(h) == spec_header_derived(i, h),
    ensures
        spec_delivers(bh, match_any, mh) <==> {
            ||| (from.len() == 0 && to.len() == 0)
            ||| (exists|k: Seq<char>|
                #[trigger] from.contains(k) && spec_originator(i) == Some(k))
            ||| (to.contains(RecipientV::Public) && spec_recipients(i).contains(
                RecipientV::Public,
            ))
            ||| (exists|k: Seq<char>|
                #[trigger] to.contains(RecipientV::Account(k)) && spec_recipients(i).contains(
                    RecipientV::Account(k),
                ))
        },
{
    if spec_delivers(bh, match_any, mh) && match_any {
        let h = choose|h: HeaderV| #[trigger] bh.contains(h) && mh.contains(h);
        match h {
            HeaderV::FromAcct(k) => {
                assert(from.contains(k) && spec_originator(i) == Some(k));
            },
            HeaderV::ToPublic => {
                assert(to.contains(RecipientV::Public) && spec_recipients(i).contains(
                    RecipientV::Public,
                ));
            },
            HeaderV::ToAcct(k) => {
                assert(to.contains(RecipientV::Account(k)) && spec_recipients(i).contains(
                    RecipientV::Account(k),
                ));
            },
        }
    }
    if exists|k: Seq<char>| #[trigger] from.contains(k) && spec_originator(i) == Some(k) {
        let k = choose|k: Seq<char>| #[trigger] from.contains(k) && spec_originator(i) == Some(k);
        assert(bh.contains(HeaderV::FromAcct(k)) && mh.contains(HeaderV::FromAcct(k)));
    }
    if to.contains(RecipientV::Public) && spec_recipients(i).contains(RecipientV::Public) {
        assert(bh.contains(HeaderV::ToPublic) && mh.contains(HeaderV::ToPublic));
    }
    if exists|k: Seq<char>|
        #[trigger] to.contains(RecipientV::Account(k)) && spec_recipients(i).contains(
            RecipientV::Account(k),
        ) {
        let k = choose|k: Seq<char>|
            #[trigger] to.contains(RecipientV::Account(k)) && spec_recipients(i).contains(
                RecipientV::Account(k),
            );
        assert(bh.contains(HeaderV::ToAcct(k)) && mh.contains(HeaderV::ToAcct(k)));
    }
}



/// The wire name of a header on the broker.
pub open spec fn spec_wire_key(h: HeaderV) -> Seq<char> {
    match h {
        HeaderV::FromAcct(k) => "v-from-acct-"@ + k,
        HeaderV::ToPublic => "v-to-public"@,
        HeaderV::ToAcct(k) => "v-to-acct-"@ + k,
    }
}

/// Renders a header as its wire name: `v-from-acct-{key}`, `v-to-public`
/// or `v-to-acct-{key}`.
pub fn header_wire_key(h: &Header) -> (r: String)
    ensures
        r@ == spec_wire_key(h@),
{
    match h {
        Header::FromAcct(k) => {
            let mut s = String::from_str("v-from-acct-");
            s.append(k.as_str());
            s
        },
        Header::ToPublic => String::from_str("v-to-public"),
        Header::ToAcct(k) => {
            let mut s = String::from_str("v-to-acct-");
            s.append(k.as_str());
            s
        },
    }
}

/// Wire names are injective: distinct headers never collide on the
/// broker, so the wire carries exactly the header set derived here.
pub proof fn lemma_wire_key_injective(a: HeaderV, b: HeaderV)
    ensures
        spec_wire_key(a) == spec_wire_key(b) ==> a == b,
{
    reveal_strlit("v-from-acct-");
    reveal_strlit("v-to-public");
    reveal_strlit("v-to-acct-");
    if spec_wire_key(a) == spec_wire_key(b) {
        let wa = spec_wire_key(a);
        let wb = spec_wire_key(b);
        match (a, b) {
            (HeaderV::FromAcct(k1), HeaderV::FromAcct(k2)) => {
                assert(k1 =~= wa.subrange(12, wa.len() as int));
                assert(k2 =~= wb.subrange(12, wb.len() as int));
            },
            (HeaderV::ToAcct(k1), HeaderV::ToAcct(k2)) => {
                assert(k1 =~= wa.subrange(10, wa.len() as int));
                assert(k2 =~= wb.subrange(10, wb.len() as int));
            },
            (HeaderV::FromAcct(k1), HeaderV::ToAcct(k2)) => {
                assert(wa[2] == 'f');
                assert(wb[2] == 't');
            },
            (HeaderV::ToAcct(k1), HeaderV::FromAcct(k2)) => {
                assert(wa[2] == 't');
                assert(wb[2] == 'f');
            },
            (HeaderV::FromAcct(k1), HeaderV::ToPublic) => {
                assert(wa[2] == 'f');
                assert(wb[2] == 't');
            },
            (HeaderV::ToPublic, HeaderV::FromAcct(k2)) => {
                assert(wa[2] == 't');
                assert(wb[2] == 'f');
            },
            (HeaderV::ToPublic, HeaderV::ToAcct(k2)) => {
                assert(wa[5] == 'p');
                assert(wb[5] == 'a');
            },
            (HeaderV::ToAcct(k1), HeaderV::ToPublic) => {
                assert(wa[5] == 'a');
                assert(wb[5] == 'p');
            },
            _ => {},
        }
    }
}

/// The parts joined back together with commas between them.
pub open spec fn spec_join_commas(parts: Seq<Seq<char>>) -> Seq<char>
    decreases parts.len(),
{
    if parts.len() == 0 {
        Seq::empty()
    } else if parts.len() == 1 {
        parts[0]
    } else {
        spec_join_commas(parts.drop_last()) + ","@ + parts.last()
    }
}

/// Splits a string on commas: the parts hold no comma and joined with
/// commas give the input back, which determines the split uniquely. An
/// empty input gives one empty part.
#[verifier::loop_isolation(false)]
pub fn split_commas(s: &str) -> (r: Vec<String>)
    ensures
        r@.len() >= 1,
        spec_join_commas(r.deep_view()) == s@,
        forall|i: int| 0 <= i < r@.len() ==> !(#[trigger] r.deep_view()[i]).contains(','),
{
    proof {
        reveal_strlit(",");
    }
    let len = s.unicode_len();
    let mut parts: Vec<String> = Vec::new();
    let mut start: usize = 0;
    let mut i: usize = 0;
    while i < len
        invariant
            0 <= start <= i <= len,
            len == s@.len(),
            spec_join_commas(parts.deep_view().push(s@.subrange(start as int, i as int)))
                == s@.take(i as int),
            forall|k: int|
                0 <= k < parts@.len() ==> !(#[trigger] parts.deep_view()[k]).contains(','),
            forall|k: int| start <= k < i ==> s@[k] != ',',
        decreases len - i,
    {
        let ghost before = parts.deep_view();
        let ghost cur = s@.subrange(start as int, i as int);
        if s.get_char(i) == ',' {
            let part = s.substring_char(start, i).to_owned();
            parts.push(part);
            proof {
                assert(parts.deep_view() =~= before.push(cur));
                assert(s@.subrange(i + 1, i + 1) =~= Seq::<char>::empty());
                assert(spec_join_commas(parts.deep_view().push(s@.subrange(i + 1, i + 1)))
                    =~= spec_join_commas(before.push(cur)) + ","@ + Seq::<char>::empty()) by {
                    assert(parts.deep_view().push(s@.subrange(i + 1, i + 1)).drop_last()
                        =~= parts.deep_view());
                }
                assert(s@.take(i + 1) =~= s@.take(i as int) + seq![s@[i as int]]);
                assert(","@ =~= seq![',']);
                assert(spec_join_commas(parts.deep_view().push(s@.subrange(i + 1, i + 1)))
                    =~= s@.take(i + 1));
                if cur.contains(',') {
                    let w = choose|w: int| 0 <= w < cur.len() && cur[w] == ',';
                    assert(s@[start + w] == ',');
                }
            }
            start = i + 1;
        } else {
            proof {
                let cur2 = s@.subrange(start as int, i + 1);
                assert(cur2 =~= cur + seq![s@[i as int]]);
                assert(before.push(cur2).drop_last() =~= before.push(cur).drop_last());
                assert(spec_join_commas(before.push(cur2)) =~= spec_join_commas(
                    before.push(cur),
                ) + seq![s@[i as int]]) by {
                    if before.len() == 0 {
                    } else {
                        assert(before.push(cur2).last() == cur2);
                    }
                }
                assert(s@.take(i + 1) =~= s@.take(i as int) + seq![s@[i as int]]);
            }
        }
        i = i + 1;
    }
    let last = s.substring_char(start, len).to_owned();
    let ghost before = parts.deep_view();
    let ghost cur = s@.subrange(start as int, len as int);
    parts.push(last);
    proof {
        assert(parts.deep_view() =~= before.push(cur));
        assert(s@.take(len as int) =~= s@);
        if cur.contains(',') {
            let w = choose|w: int| 0 <= w < cur.len() && cur[w] == ',';
            assert(s@[start + w] == ',');
        }
    }
    parts
}

/// The query parameters of the interaction stream route: optional
/// comma-separated lists of originator keys and recipients.
pub struct GetInteractionsStreamQuery {
    pub from: Option<String>,
    pub to: Option<String>,
}

impl GetInteractionsStreamQuery {
    /// The originator filter: the comma-separated keys of the `from`
    /// parameter, or no filter at all.
    pub fn from(&self) -> (r: Vec<String>)
        ensures
            match self.from {
                None => r@.len() == 0,
                Some(_) => {
                    &&& r@.len() >= 1
                    &&& spec_join_commas(r.deep_view()) == self.from->0@
                    &&& forall|i: int|
                        0 <= i < r@.len() ==> !(#[trigger] r.deep_view()[i]).contains(',')
                },
            },
    {
        match &self.from {
            Some(list) => split_commas(list.as_str()),
            None => Vec::new(),
        }
    }

    /// The recipient filter: each comma-separated entry of the `to`
    /// parameter, with `public` naming the public collection and anything
    /// else naming an account key; or no filter at all.
    #[verifier::loop_isolation(false)]
    pub fn to(&self) -> (r: Vec<Recipient>)
        ensures
            match self.to {
                None => r@.len() == 0,
                Some(_) => exists|parts: Seq<Seq<char>>|
                    {
                        &&& #[trigger] spec_join_commas(parts) == self.to->0@
                        &&& parts.len() >= 1
                        &&& forall|i: int| 0 <= i < parts.len() ==> !(#[trigger] parts[i]).contains(
                            ',',
                        )
                        &&& r@.len() == parts.len()
                        &&& forall|i: int|
                            0 <= i < parts.len() ==> #[trigger] r.deep_view()[i] == (if parts[i]
                                == "public"@ {
                                RecipientV::Public
                            } else {
                                RecipientV::Account(parts[i])
                            })
                    },
            },
    {
        let list = match &self.to {
            Some(list) => list,
            None => {
                return Vec::new();
            },
        };
        let parts = split_commas(list.as_str());
        let ghost parts_dv = parts.deep_view();
        let public = String::from_str("public");
        let mut out: Vec<Recipient> = Vec::new();
        let mut i: usize = 0;
        while i < parts.len()
            invariant
                i <= parts@.len(),
                out@.len() == i,
                public@ == "public"@,
                forall|k: int|
                    0 <= k < i ==> #[trigger] out.deep_view()[k] == (if parts_dv[k] == "public"@ {
                        RecipientV::Public
                    } else {
                        RecipientV::Account(parts_dv[k])
                    }),
            decreases parts@.len() - i,
        {
            let ghost before = out.deep_view();
            if parts[i] == public {
                out.push(Recipient::Public);
            } else {
                out.push(Recipient::Account(parts[i].clone()));
            }
            proof {
                assert(out.deep_view() =~= before.push(out@.last()@));
                assert(parts_dv[i as int] == parts@[i as int]@);
            }
            i = i + 1;
        }
        out
    }
}

} // verus!
