//! The fixed byte fragments of the feed document.
//!
//! Each fragment has a specification value and an executable append; the
//! document builder interleaves these with the escaped, encoded and
//! rendered dynamic pieces.

use vstd::prelude::*;

verus! {

/// `<?xml version="1.0" encoding="UTF-8"?>\n<rss version="2.0">\n<channel>\n<title>`
pub open spec fn frag_doc_head() -> Seq<u8> {
    seq![60u8, 63u8, 120u8, 109u8, 108u8, 32u8, 118u8, 101u8, 114u8, 115u8, 105u8, 111u8, 110u8, 61u8, 34u8, 49u8, 46u8, 48u8, 34u8, 32u8, 101u8, 110u8, 99u8, 111u8, 100u8, 105u8, 110u8, 103u8, 61u8, 34u8, 85u8, 84u8, 70u8, 45u8, 56u8, 34u8, 63u8, 62u8, 10u8, 60u8, 114u8, 115u8, 115u8, 32u8, 118u8, 101u8, 114u8, 115u8, 105u8, 111u8, 110u8, 61u8, 34u8, 50u8, 46u8, 48u8, 34u8, 62u8, 10u8, 60u8, 99u8, 104u8, 97u8, 110u8, 110u8, 101u8, 108u8, 62u8, 10u8, 60u8, 116u8, 105u8, 116u8, 108u8, 101u8, 62u8]
}

/// Appends `<?xml version="1.0" encoding="UTF-8"?>\n<rss version="2.0">\n<channel>\n<title>` to `out`.
pub(crate) fn push_doc_head(out: &mut Vec<u8>)
    ensures
        final(out)@ == old(out)@ + frag_doc_head(),
{
    out.push(60);
    out.push(63);
    out.push(120);
    out.push(109);
    out.push(108);
    out.push(32);
    out.push(118);
    out.push(101);
    out.push(114);
    out.push(115);
    out.push(105);
    out.push(111);
    out.push(110);
    out.push(61);
    out.push(34);
    out.push(49);
    out.push(46);
    out.push(48);
    out.push(34);
    out.push(32);
    out.push(101);
    out.push(110);
    out.push(99);
    out.push(111);
    out.push(100);
    out.push(105);
    out.push(110);
    out.push(103);
    out.push(61);
    out.push(34);
    out.push(85);
    out.push(84);
    out.push(70);
    out.push(45);
    out.push(56);
    out.push(34);
    out.push(63);
    out.push(62);
    out.push(10);
    out.push(60);
    out.push(114);
    out.push(115);
    out.push(115);
    out.push(32);
    out.push(118);
    out.push(101);
    out.push(114);
    out.push(115);
    out.push(105);
    out.push(111);
    out.push(110);
    out.push(61);
    out.push(34);
    out.push(50);
    out.push(46);
    out.push(48);
    out.push(34);
    out.push(62);
    out.push(10);
    out.push(60);
    out.push(99);
    out.push(104);
    out.push(97);
    out.push(110);
    out.push(110);
    out.push(101);
    out.push(108);
    out.push(62);
    out.push(10);
    out.push(60);
    out.push(116);
    out.push(105);
    out.push(116);
    out.push(108);
    out.push(101);
    out.push(62);
    assert(out@ =~= old(out)@ + frag_doc_head());
}

/// `</title>\n<link>`
pub open spec fn frag_title_link() -> Seq<u8> {
    seq![60u8, 47u8, 116u8, 105u8, 116u8, 108u8, 101u8, 62u8, 10u8, 60u8, 108u8, 105u8, 110u8, 107u8, 62u8]
}

/// Appends `</title>\n<link>` to `out`.
pub(crate) fn push_title_link(out: &mut Vec<u8>)
    ensures
        final(out)@ == old(out)@ + frag_title_link(),
{
    out.push(60);
    out.push(47);
    out.push(116);
    out.push(105);
    out.push(116);
    out.push(108);
    out.push(101);
    out.push(62);
    out.push(10);
    out.push(60);
    out.push(108);
    out.push(105);
    out.push(110);
    out.push(107);
    out.push(62);
    assert(out@ =~= old(out)@ + frag_title_link());
}

/// `/shows/`
pub open spec fn frag_shows_segment() -> Seq<u8> {
    seq![47u8, 115u8, 104u8, 111u8, 119u8, 115u8, 47u8]
}

/// Appends `/shows/` to `out`.
pub(crate) fn push_shows_segment(out: &mut Vec<u8>)
    ensures
        final(out)@ == old(out)@ + frag_shows_segment(),
{
    out.push(47);
    out.push(115);
    out.push(104);
    out.push(111);
    out.push(119);
    out.push(115);
    out.push(47);
    assert(out@ =~= old(out)@ + frag_shows_segment());
}

/// `</link>\n<description>Episodes of `
pub open spec fn frag_link_description() -> Seq<u8> {
    seq![60u8, 47u8, 108u8, 105u8, 110u8, 107u8, 62u8, 10u8, 60u8, 100u8, 101u8, 115u8, 99u8, 114u8, 105u8, 112u8, 116u8, 105u8, 111u8, 110u8, 62u8, 69u8, 112u8, 105u8, 115u8, 111u8, 100u8, 101u8, 115u8, 32u8, 111u8, 102u8, 32u8]
}

/// Appends `</link>\n<description>Episodes of ` to `out`.
pub(crate) fn push_link_description(out: &mut Vec<u8>)
    ensures
        final(out)@ == old(out)@ + frag_link_description(),
{
    out.push(60);
    out.push(47);
    out.push(108);
    out.push(105);
    out.push(110);
    out.push(107);
    out.push(62);
    out.push(10);
    out.push(60);
    out.push(100);
    out.push(101);
    out.push(115);
    out.push(99);
    out.push(114);
    out.push(105);
    out.push(112);
    out.push(116);
    out.push(105);
    out.push(111);
    out.push(110);
    out.push(62);
    out.push(69);
    out.push(112);
    out.push(105);
    out.push(115);
    out.push(111);
    out.push(100);
    out.push(101);
    out.push(115);
    out.push(32);
    out.push(111);
    out.push(102);
    out.push(32);
    assert(out@ =~= old(out)@ + frag_link_description());
}

/// `</description>\n`
pub open spec fn frag_description_end() -> Seq<u8> {
    seq![60u8, 47u8, 100u8, 101u8, 115u8, 99u8, 114u8, 105u8, 112u8, 116u8, 105u8, 111u8, 110u8, 62u8, 10u8]
}

/// Appends `</description>\n` to `out`.
pub(crate) fn push_description_end(out: &mut Vec<u8>)
    ensures
        final(out)@ == old(out)@ + frag_description_end(),
{
    out.push(60);
    out.push(47);
    out.push(100);
    out.push(101);
    out.push(115);
    out.push(99);
    out.push(114);
    out.push(105);
    out.push(112);
    out.push(116);
    out.push(105);
    out.push(111);
    out.push(110);
    out.push(62);
    out.push(10);
    assert(out@ =~= old(out)@ + frag_description_end());
}

/// `</channel>\n</rss>\n`
pub open spec fn frag_doc_tail() -> Seq<u8> {
    seq![60u8, 47u8, 99u8, 104u8, 97u8, 110u8, 110u8, 101u8, 108u8, 62u8, 10u8, 60u8, 47u8, 114u8, 115u8, 115u8, 62u8, 10u8]
}

/// Appends `</channel>\n</rss>\n` to `out`.
pub(crate) fn push_doc_tail(out: &mut Vec<u8>)
    ensures
        final(out)@ == old(out)@ + frag_doc_tail(),
{
    out.push(60);
    out.push(47);
    out.push(99);
    out.push(104);
    out.push(97);
    out.push(110);
    out.push(110);
    out.push(101);
    out.push(108);
    out.push(62);
    out.push(10);
    out.push(60);
    out.push(47);
    out.push(114);
    out.push(115);
    out.push(115);
    out.push(62);
    out.push(10);
    assert(out@ =~= old(out)@ + frag_doc_tail());
}

/// `<item>\n<title>`
pub open spec fn frag_item_head() -> Seq<u8> {
    seq![60u8, 105u8, 116u8, 101u8, 109u8, 62u8, 10u8, 60u8, 116u8, 105u8, 116u8, 108u8, 101u8, 62u8]
}

/// Appends `<item>\n<title>` to `out`.
pub(crate) fn push_item_head(out: &mut Vec<u8>)
    ensures
        final(out)@ == old(out)@ + frag_item_head(),
{
    out.push(60);
    out.push(105);
    out.push(116);
    out.push(101);
    out.push(109);
    out.push(62);
    out.push(10);
    out.push(60);
    out.push(116);
    out.push(105);
    out.push(116);
    out.push(108);
    out.push(101);
    out.push(62);
    assert(out@ =~= old(out)@ + frag_item_head());
}

/// `</title>\n<enclosure url="`
pub open spec fn frag_item_enclosure() -> Seq<u8> {
    seq![60u8, 47u8, 116u8, 105u8, 116u8, 108u8, 101u8, 62u8, 10u8, 60u8, 101u8, 110u8, 99u8, 108u8, 111u8, 115u8, 117u8, 114u8, 101u8, 32u8, 117u8, 114u8, 108u8, 61u8, 34u8]
}

/// Appends `</title>\n<enclosure url="` to `out`.
pub(crate) fn push_item_enclosure(out: &mut Vec<u8>)
    ensures
        final(out)@ == old(out)@ + frag_item_enclosure(),
{
    out.push(60);
    out.push(47);
    out.push(116);
    out.push(105);
    out.push(116);
    out.push(108);
    out.push(101);
    out.push(62);
    out.push(10);
    out.push(60);
    out.push(101);
    out.push(110);
    out.push(99);
    out.push(108);
    out.push(111);
    out.push(115);
    out.push(117);
    out.push(114);
    out.push(101);
    out.push(32);
    out.push(117);
    out.push(114);
    out.push(108);
    out.push(61);
    out.push(34);
    assert(out@ =~= old(out)@ + frag_item_enclosure());
}

/// `/files/`
pub open spec fn frag_files_segment() -> Seq<u8> {
    seq![47u8, 102u8, 105u8, 108u8, 101u8, 115u8, 47u8]
}

/// Appends `/files/` to `out`.
pub(crate) fn push_files_segment(out: &mut Vec<u8>)
    ensures
        final(out)@ == old(out)@ + frag_files_segment(),
{
    out.push(47);
    out.push(102);
    out.push(105);
    out.push(108);
    out.push(101);
    out.push(115);
    out.push(47);
    assert(out@ =~= old(out)@ + frag_files_segment());
}

/// `/`
pub open spec fn frag_slash() -> Seq<u8> {
    seq![47u8]
}

/// Appends `/` to `out`.
pub(crate) fn push_slash(out: &mut Vec<u8>)
    ensures
        final(out)@ == old(out)@ + frag_slash(),
{
    out.push(47);
    assert(out@ =~= old(out)@ + frag_slash());
}

/// `" length="`
pub open spec fn frag_enclosure_length() -> Seq<u8> {
    seq![34u8, 32u8, 108u8, 101u8, 110u8, 103u8, 116u8, 104u8, 61u8, 34u8]
}

/// Appends `" length="` to `out`.
pub(crate) fn push_enclosure_length(out: &mut Vec<u8>)
    ensures
        final(out)@ == old(out)@ + frag_enclosure_length(),
{
    out.push(34);
    out.push(32);
    out.push(108);
    out.push(101);
    out.push(110);
    out.push(103);
    out.push(116);
    out.push(104);
    out.push(61);
    out.push(34);
    assert(out@ =~= old(out)@ + frag_enclosure_length());
}

/// `" type="`
pub open spec fn frag_enclosure_type() -> Seq<u8> {
    seq![34u8, 32u8, 116u8, 121u8, 112u8, 101u8, 61u8, 34u8]
}

/// Appends `" type="` to `out`.
pub(crate) fn push_enclosure_type(out: &mut Vec<u8>)
    ensures
        final(out)@ == old(out)@ + frag_enclosure_type(),
{
    out.push(34);
    out.push(32);
    out.push(116);
    out.push(121);
    out.push(112);
    out.push(101);
    out.push(61);
    out.push(34);
    assert(out@ =~= old(out)@ + frag_enclosure_type());
}

/// `"/>\n<guid isPermaLink="false">`
pub open spec fn frag_enclosure_guid() -> Seq<u8> {
    seq![34u8, 47u8, 62u8, 10u8, 60u8, 103u8, 117u8, 105u8, 100u8, 32u8, 105u8, 115u8, 80u8, 101u8, 114u8, 109u8, 97u8, 76u8, 105u8, 110u8, 107u8, 61u8, 34u8, 102u8, 97u8, 108u8, 115u8, 101u8, 34u8, 62u8]
}

/// Appends `"/>\n<guid isPermaLink="false">` to `out`.
pub(crate) fn push_enclosure_guid(out: &mut Vec<u8>)
    ensures
        final(out)@ == old(out)@ + frag_enclosure_guid(),
{
    out.push(34);
    out.push(47);
    out.push(62);
    out.push(10);
    out.push(60);
    out.push(103);
    out.push(117);
    out.push(105);
    out.push(100);
    out.push(32);
    out.push(105);
    out.push(115);
    out.push(80);
    out.push(101);
    out.push(114);
    out.push(109);
    out.push(97);
    out.push(76);
    out.push(105);
    out.push(110);
    out.push(107);
    out.push(61);
    out.push(34);
    out.push(102);
    out.push(97);
    out.push(108);
    out.push(115);
    out.push(101);
    out.push(34);
    out.push(62);
    assert(out@ =~= old(out)@ + frag_enclosure_guid());
}

/// `</guid>\n<pubDate>`
pub open spec fn frag_guid_pubdate() -> Seq<u8> {
    seq![60u8, 47u8, 103u8, 117u8, 105u8, 100u8, 62u8, 10u8, 60u8, 112u8, 117u8, 98u8, 68u8, 97u8, 116u8, 101u8, 62u8]
}

/// Appends `</guid>\n<pubDate>` to `out`.
pub(crate) fn push_guid_pubdate(out: &mut Vec<u8>)
    ensures
        final(out)@ == old(out)@ + frag_guid_pubdate(),
{
    out.push(60);
    out.push(47);
    out.push(103);
    out.push(117);
    out.push(105);
    out.push(100);
    out.push(62);
    out.push(10);
    out.push(60);
    out.push(112);
    out.push(117);
    out.push(98);
    out.push(68);
    out.push(97);
    out.push(116);
    out.push(101);
    out.push(62);
    assert(out@ =~= old(out)@ + frag_guid_pubdate());
}

/// `</pubDate>\n</item>\n`
pub open spec fn frag_item_tail() -> Seq<u8> {
    seq![60u8, 47u8, 112u8, 117u8, 98u8, 68u8, 97u8, 116u8, 101u8, 62u8, 10u8, 60u8, 47u8, 105u8, 116u8, 101u8, 109u8, 62u8, 10u8]
}

/// Appends `</pubDate>\n</item>\n` to `out`.
pub(crate) fn push_item_tail(out: &mut Vec<u8>)
    ensures
        final(out)@ == old(out)@ + frag_item_tail(),
{
    out.push(60);
    out.push(47);
    out.push(112);
    out.push(117);
    out.push(98);
    out.push(68);
    out.push(97);
    out.push(116);
    out.push(101);
    out.push(62);
    out.push(10);
    out.push(60);
    out.push(47);
    out.push(105);
    out.push(116);
    out.push(101);
    out.push(109);
    out.push(62);
    out.push(10);
    assert(out@ =~= old(out)@ + frag_item_tail());
}

} // verus!
