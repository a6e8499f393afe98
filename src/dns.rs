//! DNS messages found in packet payloads, and the rendering of their
//! resource records.
use vstd::prelude::*;
use vstd::string::StringExecFns;
use dns_parser::RData::{A, AAAA, CNAME, MX, NS, PTR, SOA, SRV, TXT, Unknown};
use crate::text::{decimal, ipv4_text, ipv6_text, ipv4_to_text, ipv6_to_text, push_decimal, push_str};

verus! {

/// The kind of a rendered resource record; it decides the grammar of `rdata`.
#[derive(Clone, Copy, Debug, PartialEq, Eq, Structural)]
pub enum RecordType {
    A,
    Aaaa,
    Cname,
    Mx,
    Ns,
    Ptr,
    Srv,
    Txt,
    Soa,
    Unknown,
}

/// One resource record with its data rendered as text.
#[derive(Clone, Debug, PartialEq, Eq)]
pub struct ResourceRecord {
    pub name: String,
    pub record_type: RecordType,
    pub rdata: String,
}

/// Summary of one DNS message.
#[derive(Clone, Debug, PartialEq, Eq)]
pub struct DnsInfo {
    pub queried_name: Option<String>,
    pub answers: Vec<ResourceRecord>,
    pub nameservers: Vec<ResourceRecord>,
    pub additional: Vec<ResourceRecord>,
}

/// The data of a resource record as the DNS parser decoded it.
#[derive(Clone, Debug, PartialEq, Eq)]
pub enum RecordData {
    A([u8; 4]),
    Aaaa([u8; 16]),
    Cname(String),
    Mx(u16, String),
    Ns(String),
    Ptr(String),
    Soa(String, String),
    Srv(u16, String),
    Txt(Vec<Vec<u8>>),
    Unknown(Vec<u8>),
}

/// A resource record as the DNS parser decoded it: owner name and data.
#[derive(Clone, Debug, PartialEq, Eq)]
pub struct WireRecord {
    pub name: String,
    pub data: RecordData,
}

/// A DNS message as the DNS parser decoded it.
#[derive(Clone, Debug, PartialEq, Eq)]
pub struct DnsMessage {
    pub questions: Vec<String>,
    pub answers: Vec<WireRecord>,
    pub nameservers: Vec<WireRecord>,
    pub additional: Vec<WireRecord>,
}

/// What `dns_parser::Packet::parse` makes of a payload, in the library's types.
pub uninterp spec fn dns_message_of(b: Seq<u8>) -> Option<DnsMessage>;

/// The standard base64 text of some bytes.
pub uninterp spec fn base64_of(b: Seq<u8>) -> Seq<char>;

/// The text that some bytes decode to as UTF-8, if they are valid UTF-8.
pub uninterp spec fn utf8_of(b: Seq<u8>) -> Option<Seq<char>>;

#[verifier::external_type_specification]
#[verifier::external_body]
pub struct ExRData<'a>(dns_parser::RData<'a>);

#[verifier::external_type_specification]
#[verifier::external_body]
pub struct ExTxt<'a>(dns_parser::rdata::Txt<'a>);

/// Relies on dns_parser::Packet::parse to decode a DNS message, on the
/// `Display` of dns_parser::Name for owner names and every question name, and
/// on `record_data` for each record's data. A message shorter than the fixed
/// twelve-byte header is refused by `Header::parse`.
#[verifier::external_body]
fn parse_dns_message(b: &[u8]) -> (r: Option<DnsMessage>)
    ensures
        r == dns_message_of(b@),
        b@.len() < 12 ==> r is None,
{
    let p = dns_parser::Packet::parse(b).ok()?;
    let section = |rs: &Vec<dns_parser::ResourceRecord>| -> Vec<WireRecord> {
        rs.iter().map(|r| WireRecord { name: r.name.to_string(), data: record_data(&r.data) }).collect()
    };
    Some(DnsMessage {
        questions: p.questions.iter().map(|q| q.qname.to_string()).collect(),
        answers: section(&p.answers),
        nameservers: section(&p.nameservers),
        additional: section(&p.additional),
    })
}

/// Converts dns_parser::RData variant for variant (names through the
/// `Display` of dns_parser::Name, addresses through `octets`); used by
/// `parse_dns_message` alone.
#[verifier::external_body]
fn record_data(d: &dns_parser::RData) -> (r: RecordData) {
    match d {
        A(a) => RecordData::A(a.0.octets()),
        AAAA(a) => RecordData::Aaaa(a.0.octets()),
        CNAME(n) => RecordData::Cname(n.0.to_string()),
        MX(m) => RecordData::Mx(m.preference, m.exchange.to_string()),
        NS(n) => RecordData::Ns(n.0.to_string()),
        PTR(n) => RecordData::Ptr(n.0.to_string()),
        SOA(s) => RecordData::Soa(s.primary_ns.to_string(), s.mailbox.to_string()),
        SRV(s) => RecordData::Srv(s.port, s.target.to_string()),
        TXT(t) => RecordData::Txt(txt_segments(t)),
        Unknown(b) => RecordData::Unknown(b.to_vec()),
    }
}

/// Relies on dns_parser's `Txt::iter`: the character-strings of a TXT
/// record, in order; used by `record_data` alone.
#[verifier::external_body]
fn txt_segments(t: &dns_parser::rdata::Txt) -> (r: Vec<Vec<u8>>) {
    t.iter().map(|s| s.to_vec()).collect()
}

/// Relies on base64::encode (standard alphabet, with padding).
#[verifier::external_body]
fn base64_text(b: &[u8]) -> (r: String)
    ensures
        r@ == base64_of(b@),
{
    base64::encode(b)
}

/// Relies on std::str::from_utf8: the text of valid UTF-8 bytes, else nothing.
#[verifier::external_body]
fn utf8_text(b: &[u8]) -> (r: Option<&str>)
    ensures
        r is Some <==> utf8_of(b@) is Some,
        r is Some ==> utf8_of(b@) == Some(r->0@),
{
    std::str::from_utf8(b).ok()
}

/// The segments of a TXT record as byte sequences.
pub open spec fn segments(segs: Seq<Vec<u8>>) -> Seq<Seq<u8>> {
    segs.map_values(|v: Vec<u8>| v@)
}

/// The first `n` segments decoded as UTF-8 and joined by newlines, if each
/// of them is valid UTF-8.
pub open spec fn txt_text(segs: Seq<Seq<u8>>, n: int) -> Option<Seq<char>>
    decreases n,
{
    if n <= 0 {
        Some(seq![])
    } else {
        match (txt_text(segs, n - 1), utf8_of(segs[n - 1])) {
            (Some(t), Some(c)) => Some(if n == 1 { c } else { t + seq!['\n'] + c }),
            _ => None,
        }
    }
}

/// The raw record data of the first `n` segments: each segment preceded by
/// its length byte (segments that the DNS parser yields are shorter than
/// 256 bytes).
pub open spec fn joined_bytes(segs: Seq<Seq<u8>>, n: int) -> Seq<u8>
    decreases n,
{
    if n <= 0 {
        seq![]
    } else {
        joined_bytes(segs, n - 1) + seq![(segs[n - 1].len() % 256) as u8] + segs[n - 1]
    }
}

/// The type tag under which record data is rendered: TXT data that is not
/// valid UTF-8 is rendered as unknown data.
pub open spec fn record_type_of(d: RecordData) -> RecordType {
    match d {
        RecordData::A(_) => RecordType::A,
        RecordData::Aaaa(_) => RecordType::Aaaa,
        RecordData::Cname(_) => RecordType::Cname,
        RecordData::Mx(_, _) => RecordType::Mx,
        RecordData::Ns(_) => RecordType::Ns,
        RecordData::Ptr(_) => RecordType::Ptr,
        RecordData::Soa(_, _) => RecordType::Soa,
        RecordData::Srv(_, _) => RecordType::Srv,
        RecordData::Txt(t) => {
            let s = segments(t@);
            if txt_text(s, s.len() as int) is Some {
                RecordType::Txt
            } else {
                RecordType::Unknown
            }
        },
        RecordData::Unknown(_) => RecordType::Unknown,
    }
}

/// The text of record data: an address in its text form for A and AAAA; the
/// target name for CNAME, NS and PTR; `preference exchange` for MX;
/// `target:port` for SRV; `primary (mailbox)` for SOA; the segments joined
/// by newlines for TXT; base64 of the raw bytes for unknown data and for TXT
/// data that is not valid UTF-8.
pub open spec fn rdata_of(d: RecordData) -> Seq<char> {
    match d {
        RecordData::A(a) => ipv4_text(a@),
        RecordData::Aaaa(a) => ipv6_text(a@),
        RecordData::Cname(n) => n@,
        RecordData::Mx(p, e) => decimal(p as nat) + seq![' '] + e@,
        RecordData::Ns(n) => n@,
        RecordData::Ptr(n) => n@,
        RecordData::Soa(p, m) => p@ + seq![' ', '('] + m@ + seq![')'],
        RecordData::Srv(port, t) => t@ + seq![':'] + decimal(port as nat),
        RecordData::Txt(t) => {
            let s = segments(t@);
            match txt_text(s, s.len() as int) {
                Some(x) => x,
                None => base64_of(joined_bytes(s, s.len() as int)),
            }
        },
        RecordData::Unknown(b) => base64_of(b@),
    }
}

/// `r` is the rendering of `w`.
pub open spec fn renders(w: WireRecord, r: ResourceRecord) -> bool {
    &&& r.name@ == w.name@
    &&& r.record_type == record_type_of(w.data)
    &&& r.rdata@ == rdata_of(w.data)
}

/// Each record of `rs` is the rendering of the record of `ws` at its place.
pub open spec fn renders_all(ws: Seq<WireRecord>, rs: Seq<ResourceRecord>) -> bool {
    &&& rs.len() == ws.len()
    &&& forall|i: int| 0 <= i < ws.len() ==> renders(#[trigger] ws[i], rs[i])
}

/// `info` is the summary of the decoded message `m`.
pub open spec fn summarizes(m: DnsMessage, info: DnsInfo) -> bool {
    &&& if m.questions@.len() > 0 {
        info.queried_name is Some && info.queried_name->0@ == m.questions@[0]@
    } else {
        info.queried_name is None
    }
    &&& renders_all(m.answers@, info.answers@)
    &&& renders_all(m.nameservers@, info.nameservers@)
    &&& renders_all(m.additional@, info.additional@)
}

proof fn lemma_txt_text_stays_none(segs: Seq<Seq<u8>>, k: int, n: int)
    requires
        0 <= k <= n,
        txt_text(segs, k) is None,
    ensures
        txt_text(segs, n) is None,
    decreases n - k,
{
    if k < n {
        lemma_txt_text_stays_none(segs, k, n - 1);
    }
}

fn joined(segs: &Vec<Vec<u8>>) -> (r: Vec<u8>)
    ensures
        r@ == joined_bytes(segments(segs@), segs@.len() as int),
{
    let ghost s = segments(segs@);
    let mut out: Vec<u8> = Vec::new();
    let mut i: usize = 0;
    while i < segs.len()
        invariant
            i <= segs@.len(),
            s == segments(segs@),
            out@ == joined_bytes(s, i as int),
        decreases segs@.len() - i,
    {
        let seg = &segs[i];
        out.push((seg.len() % 256) as u8);
        let ghost before = out@;
        let mut j: usize = 0;
        while j < seg.len()
            invariant
                j <= seg@.len(),
                seg@ == s[i as int],
                out@ == before + seg@.subrange(0, j as int),
            decreases seg@.len() - j,
        {
            out.push(seg[j]);
            j = j + 1;
            assert(out@ =~= before + seg@.subrange(0, j as int));
        }
        assert(seg@.subrange(0, seg@.len() as int) =~= seg@);
        assert(out@ =~= joined_bytes(s, i as int + 1));
        i = i + 1;
    }
    out
}

fn render_txt(segs: &Vec<Vec<u8>>) -> (r: (RecordType, String))
    ensures
        r.0 == record_type_of(RecordData::Txt(*segs)),
        r.1@ == rdata_of(RecordData::Txt(*segs)),
{
    let ghost s = segments(segs@);
    let mut out = String::new();
    let mut i: usize = 0;
    while i < segs.len()
        invariant
            i <= segs@.len(),
            s == segments(segs@),
            txt_text(s, i as int) == Some(out@),
        decreases segs@.len() - i,
    {
        match utf8_text(segs[i].as_slice()) {
            Some(t) => {
                if i > 0 {
                    proof { reveal_strlit("\n"); }
                    out.append("\n");
                }
                out.append(t);
                i = i + 1;
                assert(txt_text(s, i as int) == Some(out@)) by {
                    if i > 1 {
                        assert(out@ =~= txt_text(s, i - 1)->0 + seq!['\n'] + utf8_of(s[i - 1])->0);
                    }
                };
            },
            None => {
                proof {
                    lemma_txt_text_stays_none(s, i + 1, s.len() as int);
                }
                let bytes = joined(segs);
                return (RecordType::Unknown, base64_text(bytes.as_slice()));
            },
        }
    }
    (RecordType::Txt, out)
}

/// Renders one decoded resource record.
pub fn render_record(w: &WireRecord) -> (r: ResourceRecord)
    ensures
        renders(*w, r),
{
    let (record_type, rdata) = match &w.data {
        RecordData::A(a) => (RecordType::A, ipv4_to_text(a)),
        RecordData::Aaaa(a) => (RecordType::Aaaa, ipv6_to_text(a)),
        RecordData::Cname(n) => (RecordType::Cname, n.clone()),
        RecordData::Mx(p, e) => {
            let mut t = String::new();
            push_decimal(&mut t, *p as u64);
            proof { reveal_strlit(" "); }
            push_str(&mut t, " ");
            push_str(&mut t, e.as_str());
            assert(t@ =~= rdata_of(w.data));
            (RecordType::Mx, t)
        },
        RecordData::Ns(n) => (RecordType::Ns, n.clone()),
        RecordData::Ptr(n) => (RecordType::Ptr, n.clone()),
        RecordData::Soa(p, m) => {
            let mut t = p.clone();
            proof { reveal_strlit(" ("); reveal_strlit(")"); }
            push_str(&mut t, " (");
            push_str(&mut t, m.as_str());
            push_str(&mut t, ")");
            assert(t@ =~= rdata_of(w.data));
            (RecordType::Soa, t)
        },
        RecordData::Srv(port, target) => {
            let mut t = target.clone();
            proof { reveal_strlit(":"); }
            push_str(&mut t, ":");
            push_decimal(&mut t, *port as u64);
            assert(t@ =~= rdata_of(w.data));
            (RecordType::Srv, t)
        },
        RecordData::Txt(segs) => render_txt(segs),
        RecordData::Unknown(b) => (RecordType::Unknown, base64_text(b.as_slice())),
    };
    ResourceRecord { name: w.name.clone(), record_type, rdata }
}

/// Renders the records of one section of a message, in order.
pub fn render_section(ws: &Vec<WireRecord>) -> (r: Vec<ResourceRecord>)
    ensures
        renders_all(ws@, r@),
{
    let mut out: Vec<ResourceRecord> = Vec::new();
    let mut i: usize = 0;
    while i < ws.len()
        invariant
            i <= ws@.len(),
            out@.len() == i,
            forall|j: int| 0 <= j < i ==> renders(#[trigger] ws@[j], out@[j]),
        decreases ws@.len() - i,
    {
        out.push(render_record(&ws[i]));
        i = i + 1;
    }
    out
}

/// Summarizes a decoded DNS message: its first question name and its three
/// record sections, rendered in wire order.
pub fn dns_info(m: &DnsMessage) -> (r: DnsInfo)
    ensures
        summarizes(*m, r),
{
    let queried_name = if m.questions.len() > 0 {
        Some(m.questions[0].clone())
    } else {
        None
    };
    DnsInfo {
        queried_name,
        answers: render_section(&m.answers),
        nameservers: render_section(&m.nameservers),
        additional: render_section(&m.additional),
    }
}

/// Parses a payload as a DNS message. A payload that is not a well-formed DNS
/// message gives `None`, never an error. The DNS parser also refuses a whole
/// message where one record has a type code it does not know or data that
/// does not decode for its type, and it leaves the EDNS OPT record out of
/// the additional section.
pub fn parse_dns(payload: &[u8]) -> (r: Option<DnsInfo>)
    ensures
        dns_message_of(payload@) is None ==> r is None,
        dns_message_of(payload@) is Some ==> r is Some && summarizes(
            dns_message_of(payload@)->0,
            r->0,
        ),
        payload@.len() < 12 ==> r is None,
{
    match parse_dns_message(payload) {
        Some(m) => Some(dns_info(&m)),
        None => None,
    }
}

} // verus!
