//! Writing JSON objects into a `String`, one member at a time.
//!
//! A JSON object is kept as its text. Each `append_*` method takes the closing
//! `}` off, writes a comma when the object already holds something, writes
//! `"label":` and the value's text, and closes the object again.

use vstd::prelude::*;
use vstd::utf8::{encode_scalar, encode_utf8};

use crate::decimal::{decimal, decimal_digits, write_signed, write_unsigned};

verus! {

/// The text `"label":text` of one member of an object.
pub open spec fn member(label: Seq<char>, text: Seq<char>) -> Seq<char> {
    seq!['"'] + label + seq!['"', ':'] + text
}

/// A value written as a JSON string: the characters between two `"`.
/// Nothing inside is escaped.
pub open spec fn quoted(value: Seq<char>) -> Seq<char> {
    seq!['"'] + value + seq!['"']
}

/// The items one after the other, with a `,` between each two.
pub open spec fn join_with_commas(items: Seq<Seq<char>>) -> Seq<char>
    decreases items.len(),
{
    if items.len() == 0 {
        Seq::empty()
    } else if items.len() == 1 {
        items[0]
    } else {
        join_with_commas(items.drop_last()) + seq![','] + items.last()
    }
}

/// The member texts of a list of (label, value text) pairs.
pub open spec fn member_texts(fields: Seq<(Seq<char>, Seq<char>)>) -> Seq<Seq<char>> {
    fields.map_values(|f: (Seq<char>, Seq<char>)| member(f.0, f.1))
}

/// The JSON object with the given (label, value text) members, in order.
pub open spec fn json_object(fields: Seq<(Seq<char>, Seq<char>)>) -> Seq<char> {
    seq!['{'] + join_with_commas(member_texts(fields)) + seq!['}']
}

/// The JSON array whose items have the given texts: `[a,b,c]`, or `[]`.
pub open spec fn array_text(items: Seq<Seq<char>>) -> Seq<char> {
    seq!['['] + join_with_commas(items) + seq![']']
}

/// The text with its last character taken off, if it has one.
pub open spec fn without_last(s: Seq<char>) -> Seq<char> {
    if s.len() == 0 {
        s
    } else {
        s.drop_last()
    }
}

/// The text once its closing character is taken off, followed by a comma when
/// more than two bytes of UTF-8 are left.
pub open spec fn reopened(s: Seq<char>) -> Seq<char> {
    let t = without_last(s);
    if encode_utf8(t).len() > 2 {
        t.push(',')
    } else {
        t
    }
}

/// What appending the member `"label":text` makes of the text `s`.
pub open spec fn with_member(s: Seq<char>, label: Seq<char>, text: Seq<char>) -> Seq<char> {
    reopened(s) + member(label, text) + seq!['}']
}

/// The `true` or `false` of a JSON boolean.
pub open spec fn bool_text(value: bool) -> Seq<char> {
    if value {
        seq!['t', 'r', 'u', 'e']
    } else {
        seq!['f', 'a', 'l', 's', 'e']
    }
}

/// The texts of the items, in order.
pub open spec fn item_texts<T: ToJsonText>(items: Seq<T>) -> Seq<Seq<char>> {
    items.map_values(|t: T| t.json_text())
}

/// Each item's text followed by a `,`, one after the other.
pub open spec fn comma_terminated(items: Seq<Seq<char>>) -> Seq<char>
    decreases items.len(),
{
    if items.len() == 0 {
        Seq::empty()
    } else {
        comma_terminated(items.drop_last()) + items.last() + seq![',']
    }
}

/// A value that can be written into JSON text, the way `ToString` writes it.
pub trait ToJsonText {
    /// The text written for the value.
    spec fn json_text(&self) -> Seq<char>;

    /// Appends the value's text to `out`.
    fn write_json_text(&self, out: &mut String)
        ensures
            final(out)@ == old(out)@ + self.json_text(),
    ;
}

impl<'a> ToJsonText for &'a str {
    /// The characters of the string, unquoted.
    open spec fn json_text(&self) -> Seq<char> {
        (**self)@
    }

    fn write_json_text(&self, out: &mut String) {
        out.append(*self);
    }
}

impl ToJsonText for String {
    /// The characters of the string, unquoted.
    open spec fn json_text(&self) -> Seq<char> {
        self@
    }

    fn write_json_text(&self, out: &mut String) {
        out.append(self.as_str());
    }
}

impl ToJsonText for bool {
    open spec fn json_text(&self) -> Seq<char> {
        bool_text(*self)
    }

    fn write_json_text(&self, out: &mut String) {
        if *self {
            out.append("true");
            proof {
                reveal_strlit("true");
            }
        } else {
            out.append("false");
            proof {
                reveal_strlit("false");
            }
        }
        proof {
            assert(out@ =~= old(out)@ + bool_text(*self));
        }
    }
}

impl ToJsonText for char {
    /// The character itself, unquoted.
    open spec fn json_text(&self) -> Seq<char> {
        seq![*self]
    }

    fn write_json_text(&self, out: &mut String) {
        out.push(*self);
    }
}

impl ToJsonText for u128 {
    open spec fn json_text(&self) -> Seq<char> {
        decimal_digits(*self as nat)
    }

    fn write_json_text(&self, out: &mut String) {
        write_unsigned(out, *self);
    }
}

impl ToJsonText for i128 {
    open spec fn json_text(&self) -> Seq<char> {
        decimal(*self as int)
    }

    fn write_json_text(&self, out: &mut String) {
        write_signed(out, *self);
    }
}

impl ToJsonText for u8 {
    open spec fn json_text(&self) -> Seq<char> {
        decimal_digits(*self as nat)
    }

    fn write_json_text(&self, out: &mut String) {
        write_unsigned(out, *self as u128);
    }
}

impl ToJsonText for u16 {
    open spec fn json_text(&self) -> Seq<char> {
        decimal_digits(*self as nat)
    }

    fn write_json_text(&self, out: &mut String) {
        write_unsigned(out, *self as u128);
    }
}

impl ToJsonText for u32 {
    open spec fn json_text(&self) -> Seq<char> {
        decimal_digits(*self as nat)
    }

    fn write_json_text(&self, out: &mut String) {
        write_unsigned(out, *self as u128);
    }
}

impl ToJsonText for u64 {
    open spec fn json_text(&self) -> Seq<char> {
        decimal_digits(*self as nat)
    }

    fn write_json_text(&self, out: &mut String) {
        write_unsigned(out, *self as u128);
    }
}

impl ToJsonText for usize {
    open spec fn json_text(&self) -> Seq<char> {
        decimal_digits(*self as nat)
    }

    fn write_json_text(&self, out: &mut String) {
        write_unsigned(out, *self as u128);
    }
}

impl ToJsonText for i8 {
    open spec fn json_text(&self) -> Seq<char> {
        decimal(*self as int)
    }

    fn write_json_text(&self, out: &mut String) {
        write_signed(out, *self as i128);
    }
}

impl ToJsonText for i16 {
    open spec fn json_text(&self) -> Seq<char> {
        decimal(*self as int)
    }

    fn write_json_text(&self, out: &mut String) {
        write_signed(out, *self as i128);
    }
}

impl ToJsonText for i32 {
    open spec fn json_text(&self) -> Seq<char> {
        decimal(*self as int)
    }

    fn write_json_text(&self, out: &mut String) {
        write_signed(out, *self as i128);
    }
}

impl ToJsonText for i64 {
    open spec fn json_text(&self) -> Seq<char> {
        decimal(*self as int)
    }

    fn write_json_text(&self, out: &mut String) {
        write_signed(out, *self as i128);
    }
}

impl ToJsonText for isize {
    open spec fn json_text(&self) -> Seq<char> {
        decimal(*self as int)
    }

    fn write_json_text(&self, out: &mut String) {
        write_signed(out, *self as i128);
    }
}

/// Building JSON objects in a text, one member at a time.
///
/// Every `append_*` method turns the text `s` into
/// `with_member(s, label, text)`: the last character of `s` (the closing `}`)
/// is taken off, a `,` is written when more than two bytes are left, then
/// `"label":`, the value's text, and `}`. On an object that this library
/// built, that is the same object with one more member at the end
/// (`lemma_append_member`).
pub trait Jsonify: Sized + View<V = Seq<char>> {
    /// A blank object, `{}`.
    fn new_json() -> (json: String)
        ensures
            json@ == json_object(Seq::empty()),
    ;

    /// Appends `"label":"value"`.
    fn append_str(&mut self, label: &str, value: &str)
        ensures
            final(self)@ == with_member(old(self)@, label@, quoted(value@)),
    ;

    /// Appends `"label":` followed by the text `json`, as it is.
    fn append_json(&mut self, label: &str, json: &String)
        ensures
            final(self)@ == with_member(old(self)@, label@, json@),
    ;

    /// Appends `"label":[a,b,c]`, each item written by its `ToJsonText`.
    fn append_vec<T: ToJsonText>(&mut self, label: &str, array: &Vec<T>)
        ensures
            final(self)@ == with_member(old(self)@, label@, array_text(item_texts(array@))),
    ;

    /// Appends `"label":` followed by the text of `value`.
    fn append_number<T: ToJsonText>(&mut self, label: &str, value: &T)
        ensures
            final(self)@ == with_member(old(self)@, label@, value.json_text()),
    ;

    /// Appends `"label":true` or `"label":false`.
    fn append_bool(&mut self, label: &str, value: bool)
        ensures
            final(self)@ == with_member(old(self)@, label@, bool_text(value)),
    ;
}

impl Jsonify for String {
    fn new_json() -> String {
        let mut json = String::new();
        json.push('{');
        json.push('}');
        proof {
            assert(json@ =~= json_object(Seq::empty()));
        }
        json
    }

    fn append_str(&mut self, label: &str, value: &str) {
        self.pop();
        if self.as_str().as_bytes().len() > 2 {
            self.push(',');
        }
        self.push('"');
        self.append(label);
        self.push('"');
        self.push(':');
        self.push('"');
        self.append(value);
        self.push('"');
        self.push('}');
        proof {
            assert(self@ =~= with_member(old(self)@, label@, quoted(value@)));
        }
    }

    fn append_json(&mut self, label: &str, json: &String) {
        self.pop();
        if self.as_str().as_bytes().len() > 2 {
            self.push(',');
        }
        self.push('"');
        self.append(label);
        self.push('"');
        self.push(':');
        self.append(json.as_str());
        self.push('}');
        proof {
            assert(self@ =~= with_member(old(self)@, label@, json@));
        }
    }

    fn append_vec<T: ToJsonText>(&mut self, label: &str, array: &Vec<T>) {
        self.pop();
        if self.as_str().as_bytes().len() > 2 {
            self.push(',');
        }
        self.push('"');
        self.append(label);
        self.push('"');
        self.push(':');
        self.push('[');
        let ghost base = self@;
        let ghost texts = item_texts(array@);
        for i in 0..array.len()
            invariant
                texts == item_texts(array@),
                self@ == base + comma_terminated(texts.take(i as int)),
        {
            array[i].write_json_text(self);
            self.push(',');
            proof {
                assert(texts.take(i + 1).drop_last() =~= texts.take(i as int));
                assert(self@ =~= base + comma_terminated(texts.take(i + 1)));
            }
        }
        proof {
            assert(texts.take(array.len() as int) =~= texts);
        }
        if array.len() > 0 {
            // Take off the comma after the last item.
            self.pop();
        }
        self.push(']');
        self.push('}');
        proof {
            if texts.len() > 0 {
                lemma_comma_terminated(texts);
            }
            assert(self@ =~= with_member(old(self)@, label@, array_text(texts)));
        }
    }

    fn append_number<T: ToJsonText>(&mut self, label: &str, value: &T) {
        self.pop();
        if self.as_str().as_bytes().len() > 2 {
            self.push(',');
        }
        self.push('"');
        self.append(label);
        self.push('"');
        self.push(':');
        value.write_json_text(self);
        self.push('}');
        proof {
            assert(self@ =~= with_member(old(self)@, label@, value.json_text()));
        }
    }

    fn append_bool(&mut self, label: &str, value: bool) {
        self.pop();
        if self.as_str().as_bytes().len() > 2 {
            self.push(',');
        }
        self.push('"');
        self.append(label);
        self.push('"');
        self.push(':');
        if value {
            self.append("true");
            proof {
                reveal_strlit("true");
            }
        } else {
            self.append("false");
            proof {
                reveal_strlit("false");
            }
        }
        self.push('}');
        proof {
            assert(self@ =~= with_member(old(self)@, label@, bool_text(value)));
        }
    }
}

/// Items each followed by a comma, once the last comma is taken off, are the
/// items joined with commas.
proof fn lemma_comma_terminated(items: Seq<Seq<char>>)
    requires
        items.len() > 0,
    ensures
        comma_terminated(items) == join_with_commas(items).push(','),
    decreases items.len(),
{
    if items.len() > 1 {
        lemma_comma_terminated(items.drop_last());
        assert(comma_terminated(items) =~= join_with_commas(items).push(','));
    } else {
        assert(items.drop_last() =~= Seq::<Seq<char>>::empty());
        assert(comma_terminated(items.drop_last()) =~= Seq::<char>::empty());
        assert(comma_terminated(items) =~= join_with_commas(items).push(','));
    }
}

/// Every character takes at least one byte of UTF-8.
proof fn lemma_utf8_at_least_one_byte_per_char(s: Seq<char>)
    ensures
        encode_utf8(s).len() >= s.len(),
    decreases s.len(),
{
    if s.len() > 0 {
        lemma_utf8_at_least_one_byte_per_char(s.drop_first());
    }
}

/// Joining one more item adds a comma and the item, unless there was none.
proof fn lemma_join_push(items: Seq<Seq<char>>, x: Seq<char>)
    ensures
        join_with_commas(items.push(x)) == if items.len() == 0 {
            x
        } else {
            join_with_commas(items) + seq![','] + x
        },
{
    assert(items.push(x).drop_last() =~= items);
}

/// A join is at least as long as its last item.
proof fn lemma_join_longer_than_last(items: Seq<Seq<char>>)
    requires
        items.len() > 0,
    ensures
        join_with_commas(items).len() >= items.last().len(),
{
}

/// Appending a member to a JSON object gives the object with that member
/// added at the end, whatever the object held before.
pub proof fn lemma_append_member(
    fields: Seq<(Seq<char>, Seq<char>)>,
    label: Seq<char>,
    text: Seq<char>,
)
    ensures
        with_member(json_object(fields), label, text) == json_object(fields.push((label, text))),
{
    let ms = member_texts(fields);
    let m = member(label, text);
    assert(member_texts(fields.push((label, text))) =~= ms.push(m));
    lemma_join_push(ms, m);
    let s = json_object(fields);
    let t = without_last(s);
    assert(t =~= seq!['{'] + join_with_commas(ms));
    if fields.len() == 0 {
        assert(t =~= seq!['{']);
        assert(t.drop_first() =~= Seq::<char>::empty());
        assert(encode_utf8(t.drop_first()) =~= Seq::<u8>::empty());
        assert(t[0] as u32 == 0x7B);
        assert(encode_scalar(t[0] as u32).len() == 1);
        assert(encode_utf8(t) =~= encode_scalar(t[0] as u32) + encode_utf8(t.drop_first()));
    } else {
        lemma_join_longer_than_last(ms);
        lemma_utf8_at_least_one_byte_per_char(t);
    }
    assert(with_member(s, label, text) =~= json_object(fields.push((label, text))));
}

/// What appending the members `fields`, in order, makes of the text `s`.
pub open spec fn with_members(s: Seq<char>, fields: Seq<(Seq<char>, Seq<char>)>) -> Seq<char>
    decreases fields.len(),
{
    if fields.len() == 0 {
        s
    } else {
        with_member(with_members(s, fields.drop_last()), fields.last().0, fields.last().1)
    }
}

/// Starting from a blank object and appending members one by one gives the
/// object that holds exactly those members, in the order they were appended.
pub proof fn lemma_build_object(fields: Seq<(Seq<char>, Seq<char>)>)
    ensures
        with_members(json_object(Seq::empty()), fields) == json_object(fields),
    decreases fields.len(),
{
    if fields.len() > 0 {
        let init = fields.drop_last();
        lemma_build_object(init);
        lemma_append_member(init, fields.last().0, fields.last().1);
        assert(init.push((fields.last().0, fields.last().1)) =~= fields);
    }
}

/// Every integer is written as the signed decimal text of its value
/// (`decimal`, whose meaning `lemma_decimal_meaning` states): digits that
/// read back as the value, after a `-` exactly when it is negative. A `char`
/// is written as itself and a `bool` as `true` or `false`.
pub proof fn lemma_value_texts()
    ensures
        forall|v: u8| #[trigger] v.json_text() == decimal(v as int),
        forall|v: u16| #[trigger] v.json_text() == decimal(v as int),
        forall|v: u32| #[trigger] v.json_text() == decimal(v as int),
        forall|v: u64| #[trigger] v.json_text() == decimal(v as int),
        forall|v: u128| #[trigger] v.json_text() == decimal(v as int),
        forall|v: usize| #[trigger] v.json_text() == decimal(v as int),
        forall|v: i8| #[trigger] v.json_text() == decimal(v as int),
        forall|v: i16| #[trigger] v.json_text() == decimal(v as int),
        forall|v: i32| #[trigger] v.json_text() == decimal(v as int),
        forall|v: i64| #[trigger] v.json_text() == decimal(v as int),
        forall|v: i128| #[trigger] v.json_text() == decimal(v as int),
        forall|v: isize| #[trigger] v.json_text() == decimal(v as int),
        forall|c: char| #[trigger] c.json_text() == seq![c],
        forall|b: bool| #[trigger] b.json_text() == (if b { "true"@ } else { "false"@ }),
{
    reveal_strlit("true");
    reveal_strlit("false");
    assert forall|b: bool| #[trigger] b.json_text() == (if b { "true"@ } else { "false"@ }) by {
        assert(bool_text(true) =~= "true"@);
        assert(bool_text(false) =~= "false"@);
    }
}

/// An array with no item is `[]`; one more item at the end adds a comma
/// (unless the array was empty) and the item's text before the closing `]`.
pub proof fn lemma_array_items(items: Seq<Seq<char>>, x: Seq<char>)
    ensures
        array_text(Seq::empty()) == "[]"@,
        array_text(items.push(x)) == if items.len() == 0 {
            seq!['['] + x + seq![']']
        } else {
            array_text(items).drop_last() + seq![','] + x + seq![']']
        },
{
    reveal_strlit("[]");
    assert(array_text(Seq::empty()) =~= "[]"@);
    lemma_join_push(items, x);
    if items.len() == 0 {
        assert(array_text(items.push(x)) =~= seq!['['] + x + seq![']']);
    } else {
        assert(array_text(items).drop_last() =~= seq!['['] + join_with_commas(items));
        assert(array_text(items.push(x)) =~= array_text(items).drop_last() + seq![','] + x + seq![']']);
    }
}

} // verus!
