//! Text blocks that list, for each device or node, a few of its sysfs
//! files: the device's name and a colon on a line of its own, then each file
//! with its trimmed contents, either on the same line (`file: value`) or on
//! the lines that follow (`file:` then the value).
use vstd::prelude::*;

use crate::collector::memory::key_lt;
use crate::text::{chars_of, extend_chars, string_of, trim, trim_chars};

verus! {

/// One file of a device and its contents, when it could be read.
pub struct FieldText {
    pub file: String,
    pub content: Option<String>,
}

/// A device or node and the files listed for it.
pub struct Section {
    pub name: String,
    pub fields: Vec<FieldText>,
}

pub struct SectionView {
    pub name: Seq<char>,
    pub fields: Seq<(Seq<char>, Option<Seq<char>>)>,
}

impl View for FieldText {
    type V = (Seq<char>, Option<Seq<char>>);

    open spec fn view(&self) -> (Seq<char>, Option<Seq<char>>) {
        (
            self.file@,
            match self.content {
                Some(c) => Some(c@),
                None => None,
            },
        )
    }
}

pub open spec fn fields_view(v: Seq<FieldText>) -> Seq<(Seq<char>, Option<Seq<char>>)> {
    v.map_values(|f: FieldText| f@)
}

impl View for Section {
    type V = SectionView;

    open spec fn view(&self) -> SectionView {
        SectionView { name: self.name@, fields: fields_view(self.fields@) }
    }
}

pub open spec fn sections_view(v: Seq<Section>) -> Seq<SectionView> {
    v.map_values(|s: Section| s@)
}

/// The line (or lines) of one file: its name, a colon, and its trimmed
/// contents (empty when it could not be read), on the same line when
/// `inline`, else on the next.
pub open spec fn field_line(field: (Seq<char>, Option<Seq<char>>), inline: bool) -> Seq<char> {
    let value = match field.1 {
        Some(c) => trim(c),
        None => seq![],
    };
    field.0 + (if inline {
        seq![':', ' ']
    } else {
        seq![':', '\n']
    }) + value + seq!['\n']
}

/// The lines of the files, in order.
pub open spec fn fields_text(fields: Seq<(Seq<char>, Option<Seq<char>>)>, inline: bool) -> Seq<
    char,
>
    decreases fields.len(),
{
    if fields.len() == 0 {
        seq![]
    } else {
        fields_text(fields.drop_last(), inline) + field_line(fields.last(), inline)
    }
}

/// The block of one device: its name and a colon, then its files.
pub open spec fn section_text(s: SectionView, inline: bool) -> Seq<char> {
    s.name + seq![':', '\n'] + fields_text(s.fields, inline)
}

/// The blocks of the devices, in order.
pub open spec fn sections_text(list: Seq<SectionView>, inline: bool) -> Seq<char>
    decreases list.len(),
{
    if list.len() == 0 {
        seq![]
    } else {
        sections_text(list.drop_last(), inline) + section_text(list.last(), inline)
    }
}

/// The text of the blocks, or nothing when there is no device.
pub open spec fn sections_report(list: Seq<SectionView>, inline: bool) -> Option<Seq<char>> {
    if list.len() == 0 {
        None
    } else {
        Some(sections_text(list, inline))
    }
}

fn push_field(out: &mut Vec<char>, f: &FieldText, inline: bool)
    ensures
        final(out)@ == old(out)@ + field_line(f@, inline),
{
    let name = chars_of(f.file.as_str());
    extend_chars(out, name.as_slice());
    if inline {
        let sep: [char; 2] = [':', ' '];
        extend_chars(out, sep.as_slice());
    } else {
        let sep: [char; 2] = [':', '\n'];
        extend_chars(out, sep.as_slice());
    }
    match &f.content {
        Some(c) => {
            let cc = chars_of(c.as_str());
            let t = trim_chars(cc.as_slice());
            extend_chars(out, t.as_slice());
        },
        None => {},
    }
    out.push('\n');
    assert(out@ =~= old(out)@ + field_line(f@, inline));
}

fn push_section(out: &mut Vec<char>, s: &Section, inline: bool)
    ensures
        final(out)@ == old(out)@ + section_text(s@, inline),
{
    let name = chars_of(s.name.as_str());
    extend_chars(out, name.as_slice());
    out.push(':');
    out.push('\n');
    let ghost head = out@;
    assert(head =~= old(out)@ + s@.name + seq![':', '\n']);
    let mut i: usize = 0;
    while i < s.fields.len()
        invariant
            i <= s.fields@.len(),
            out@ == head + fields_text(fields_view(s.fields@).take(i as int), inline),
        decreases s.fields.len() - i,
    {
        let ghost t = fields_view(s.fields@).take(i + 1);
        assert(t.drop_last() =~= fields_view(s.fields@).take(i as int));
        assert(t.last() == s.fields@[i as int]@);
        push_field(out, &s.fields[i], inline);
        assert(out@ =~= head + fields_text(t, inline));
        i = i + 1;
    }
    assert(fields_view(s.fields@).take(i as int) =~= fields_view(s.fields@));
    assert(out@ =~= old(out)@ + section_text(s@, inline));
}

/// The text of the blocks of `list`, in order; nothing when it is empty.
pub fn render_sections(list: &Vec<Section>, inline: bool) -> (r: Option<String>)
    ensures
        match r {
            Some(t) => sections_report(sections_view(list@), inline) == Some(t@),
            None => sections_report(sections_view(list@), inline) is None,
        },
{
    if list.len() == 0 {
        return None;
    }
    let mut out: Vec<char> = Vec::new();
    let mut i: usize = 0;
    while i < list.len()
        invariant
            i <= list@.len(),
            out@ == sections_text(sections_view(list@).take(i as int), inline),
        decreases list.len() - i,
    {
        let ghost t = sections_view(list@).take(i + 1);
        assert(t.drop_last() =~= sections_view(list@).take(i as int));
        assert(t.last() == list@[i as int]@);
        push_section(&mut out, &list[i], inline);
        i = i + 1;
    }
    assert(sections_view(list@).take(i as int) =~= sections_view(list@));
    Some(string_of(out.as_slice()))
}

/// The block of `name` whose files are `files`, with their contents.
pub open spec fn section_of(
    name: Seq<char>,
    files: Seq<Seq<char>>,
    contents: Seq<Option<Seq<char>>>,
) -> SectionView {
    SectionView { name, fields: Seq::new(files.len(), |i: int| (files[i], contents[i])) }
}

pub open spec fn options_view(v: Seq<Option<String>>) -> Seq<Option<Seq<char>>> {
    v.map_values(
        |o: Option<String>|
            match o {
                Some(s) => Some(s@),
                None => None,
            },
    )
}

/// The block of a device from the contents of its files.
pub fn section(name: String, files: &[&str], contents: Vec<Option<String>>) -> (r: Section)
    requires
        contents@.len() == files@.len(),
    ensures
        r@ == section_of(name@, crate::collector::str_views(files@), options_view(contents@)),
{
    let mut fields: Vec<FieldText> = Vec::new();
    let mut rest = contents;
    let mut pending: Vec<Option<String>> = Vec::new();
    let ghost all = options_view(rest@);
    while rest.len() > 0
        invariant
            options_view(rest@) + options_view(pending@).reverse() == all,
        decreases rest.len(),
    {
        let ghost br = options_view(rest@);
        let ghost bp = options_view(pending@);
        let c = rest.pop().unwrap();
        pending.push(c);
        assert(options_view(rest@) =~= br.drop_last());
        assert(options_view(pending@) =~= bp.push(br.last()));
        assert(options_view(pending@).reverse() =~= seq![br.last()] + bp.reverse());
        assert(options_view(rest@) + options_view(pending@).reverse() =~= all);
    }
    assert(options_view(rest@) =~= seq![]);
    assert(options_view(pending@).reverse() =~= all);
    let ghost fs = crate::collector::str_views(files@);
    let mut i: usize = 0;
    while i < files.len()
        invariant
            i <= files@.len(),
            all.len() == files@.len(),
            fs == crate::collector::str_views(files@),
            options_view(pending@).reverse() == all.skip(i as int),
            fields_view(fields@) == Seq::new(i as nat, |j: int| (fs[j], all[j])),
        decreases files.len() - i,
    {
        let ghost before = options_view(pending@);
        assert(before.reverse().len() == before.len());
        assert(all.skip(i as int).len() > 0);
        let c = pending.pop().unwrap();
        proof {
            assert(before.reverse()[0] == before.last());
            assert(all.skip(i as int)[0] == all[i as int]);
            assert(options_view(pending@) =~= before.drop_last());
            assert(before.drop_last().reverse() =~= before.reverse().drop_first());
            assert(all.skip(i as int).drop_first() =~= all.skip(i + 1));
        }
        let f = FieldText { file: string_of(chars_of(files[i]).as_slice()), content: c };
        let ghost prev = fields_view(fields@);
        fields.push(f);
        assert(fields_view(fields@) =~= prev.push((fs[i as int], all[i as int])));
        assert(fields_view(fields@) =~= Seq::new((i + 1) as nat, |j: int| (fs[j], all[j])));
        i = i + 1;
    }
    Section { name, fields }
}

/// `s` with `e` put before its first block whose name is greater.
pub open spec fn insert_by_name(s: Seq<SectionView>, e: SectionView) -> Seq<SectionView>
    decreases s.len(),
{
    if s.len() == 0 {
        seq![e]
    } else if key_lt(e.name, s[0].name) {
        seq![e] + s
    } else {
        seq![s[0]] + insert_by_name(s.drop_first(), e)
    }
}

/// The stable sort of the blocks by name, in the order of `String`.
pub open spec fn sort_by_name(s: Seq<SectionView>) -> Seq<SectionView>
    decreases s.len(),
{
    if s.len() == 0 {
        seq![]
    } else {
        insert_by_name(sort_by_name(s.drop_last()), s.last())
    }
}

fn insert_section(v: &mut Vec<Section>, e: Section)
    ensures
        sections_view(final(v)@) == insert_by_name(sections_view(old(v)@), e@),
{
    let ek = chars_of(e.name.as_str());
    let mut i: usize = 0;
    let ghost s = sections_view(v@);
    assert(s.skip(0) =~= s);
    assert(s.take(0) + insert_by_name(s, e@) =~= insert_by_name(s, e@));
    while i < v.len()
        invariant
            i <= v@.len(),
            v@ == old(v)@,
            s == sections_view(v@),
            ek@ == e@.name,
            insert_by_name(s, e@) == s.take(i as int) + insert_by_name(s.skip(i as int), e@),
        ensures
            i <= v@.len(),
            v@ == old(v)@,
            insert_by_name(s, e@) == s.take(i as int) + insert_by_name(s.skip(i as int), e@),
            i < v@.len() ==> key_lt(e@.name, s[i as int].name),
        decreases v.len() - i,
    {
        let k = chars_of(v[i].name.as_str());
        assert(s.skip(i as int)[0] == v@[i as int]@);
        if crate::collector::memory::key_less(ek.as_slice(), k.as_slice()) {
            break;
        }
        proof {
            let t = s.skip(i as int);
            assert(t.drop_first() =~= s.skip(i + 1));
            assert(insert_by_name(t, e@) == seq![t[0]] + insert_by_name(t.drop_first(), e@));
            assert(s.take(i + 1) =~= s.take(i as int) + seq![t[0]]);
            assert(s.take(i as int) + insert_by_name(t, e@) =~= s.take(i + 1) + insert_by_name(
                s.skip(i + 1),
                e@,
            ));
        }
        i = i + 1;
    }
    proof {
        let t = s.skip(i as int);
        if i < v@.len() {
            assert(t[0] == s[i as int]);
            assert(insert_by_name(t, e@) == seq![e@] + t);
        } else {
            assert(t =~= seq![]);
        }
    }
    v.insert(i, e);
    assert(sections_view(v@) =~= s.take(i as int) + (seq![sections_view(v@)[i as int]]
        + s.skip(i as int)));
}

/// The blocks sorted by name, keeping the order of equal names.
pub fn sort_sections(list: Vec<Section>) -> (r: Vec<Section>)
    ensures
        sections_view(r@) == sort_by_name(sections_view(list@)),
{
    let ghost all = sections_view(list@);
    let mut rest = list;
    let mut pending: Vec<Section> = Vec::new();
    while rest.len() > 0
        invariant
            sections_view(rest@) + sections_view(pending@).reverse() == all,
        decreases rest.len(),
    {
        let ghost before_rest = sections_view(rest@);
        let ghost before_pending = sections_view(pending@);
        let s = rest.pop().unwrap();
        pending.push(s);
        assert(sections_view(rest@) =~= before_rest.drop_last());
        assert(sections_view(pending@) =~= before_pending.push(before_rest.last()));
        assert(sections_view(pending@).reverse() =~= seq![before_rest.last()]
            + before_pending.reverse());
        assert(sections_view(rest@) + sections_view(pending@).reverse() =~= all);
    }
    assert(sections_view(rest@) =~= seq![]);
    assert(sections_view(pending@).reverse() =~= all);
    let mut out: Vec<Section> = Vec::new();
    let ghost mut k: int = 0;
    while pending.len() > 0
        invariant
            0 <= k <= all.len(),
            sections_view(pending@).reverse() == all.skip(k),
            sections_view(out@) == sort_by_name(all.take(k)),
        decreases pending.len(),
    {
        let ghost before = sections_view(pending@);
        let s = pending.pop().unwrap();
        proof {
            assert(before.reverse().len() == before.len());
            assert(k < all.len());
            assert(before.reverse()[0] == before.last());
            assert(all.skip(k)[0] == all[k]);
            assert(sections_view(pending@) =~= before.drop_last());
            assert(before.drop_last().reverse() =~= before.reverse().drop_first());
            assert(all.skip(k).drop_first() =~= all.skip(k + 1));
            assert(all.take(k + 1).drop_last() =~= all.take(k));
        }
        insert_section(&mut out, s);
        proof {
            k = k + 1;
        }
    }
    assert(all.skip(k).len() == 0);
    assert(all.take(k) =~= all);
    out
}

} // verus!
