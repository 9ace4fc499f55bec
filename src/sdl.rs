use vstd::prelude::*;
use crate::ev::{Axis, AxisOrBtn, Button};
use crate::mapping::{entries_wf, Mapping, MappingError};
use crate::raw::EvCode;
use vstd::slice::slice_subrange;

verus! {

/// ASCII byte of the lowercase hexadecimal digit `n` (`n < 16`).
pub open spec fn hex_digit(n: u8) -> u8 {
    if n < 10 {
        (48 + n) as u8
    } else {
        (87 + n) as u8
    }
}

/// Bytes as lowercase hexadecimal text, two digits per byte, high nibble first.
pub open spec fn hex_text(b: Seq<u8>) -> Seq<u8>
    decreases b.len(),
{
    if b.len() == 0 {
        Seq::<u8>::empty()
    } else {
        seq![hex_digit(b[0] / 16), hex_digit(b[0] % 16)] + hex_text(b.drop_first())
    }
}

/// Relies on uuid's `Uuid::from_bytes` and `Uuid::simple`: the 16 bytes as 32 lowercase hex
/// digits, high nibble first.
#[verifier::external_body]
fn uuid_simple(bytes: [u8; 16]) -> (r: Vec<u8>)
    ensures
        r@ == hex_text(bytes@),
{
    uuid::Uuid::from_bytes(bytes).simple().to_string().into_bytes()
}

/// Whether `line` starts with the GUID `guid` followed by a comma.
pub open spec fn has_guid(line: Seq<u8>, guid: Seq<u8>) -> bool {
    &&& line.len() > guid.len()
    &&& line.subrange(0, guid.len() as int) == guid
    &&& line[guid.len() as int] == 44u8
}

/// Database of SDL mapping lines (`GUID,name,field:code,...`), one per line.
#[derive(Clone, Debug)]
pub struct MappingDb {
    lines: Vec<Vec<u8>>,
}

impl View for MappingDb {
    type V = Seq<Seq<u8>>;

    closed spec fn view(&self) -> Seq<Seq<u8>> {
        self.lines@.map_values(|l: Vec<u8>| l@)
    }
}

/// The lines of `text` separated by `\n`, in order, without empty ones.
pub open spec fn nonempty_lines(text: Seq<u8>) -> Seq<Seq<u8>>
    decreases text.len(),
{
    if text.len() == 0 {
        Seq::<Seq<u8>>::empty()
    } else {
        let i = first_newline(text);
        let rest = if 0 <= i < text.len() { text.subrange(i + 1, text.len() as int) } else { Seq::<u8>::empty() };
        let head = text.subrange(0, i);
        if head.len() == 0 {
            nonempty_lines(rest)
        } else {
            seq![head] + nonempty_lines(rest)
        }
    }
}

/// Index of the first `\n` of `text`, or its length.
pub open spec fn first_newline(text: Seq<u8>) -> int
    decreases text.len(),
{
    if text.len() == 0 {
        0
    } else if text[0] == 10u8 {
        0
    } else {
        1 + first_newline(text.drop_first())
    }
}

proof fn lemma_first_newline(text: Seq<u8>)
    ensures
        0 <= first_newline(text) <= text.len(),
        first_newline(text) < text.len() ==> text[first_newline(text)] == 10u8,
        forall|k: int| 0 <= k < first_newline(text) ==> text[k] != 10u8,
    decreases text.len(),
{
    if text.len() > 0 && text[0] != 10u8 {
        lemma_first_newline(text.drop_first());
        assert forall|k: int| 0 <= k < first_newline(text) implies text[k] != 10u8 by {
            if k > 0 {
                assert(text[k] == text.drop_first()[k - 1]);
            }
        }
    }
}

impl MappingDb {
    pub fn new() -> (r: MappingDb)
        ensures
            r@ == Seq::<Seq<u8>>::empty(),
    {
        let r = MappingDb { lines: Vec::new() };
        assert(r@ =~= Seq::<Seq<u8>>::empty());
        r
    }

    /// Adds every non-empty line of `text`; later lines take precedence over earlier ones.
    pub fn insert(&mut self, text: &[u8])
        ensures
            final(self)@ == old(self)@ + nonempty_lines(text@),
    {
        let n = text.len();
        let mut start: usize = 0;
        assert(text@.subrange(0, n as int) =~= text@);
        while start < n
            invariant
                n == text@.len(),
                0 <= start <= n,
                old(self)@ + nonempty_lines(text@) == self@ + nonempty_lines(
                    text@.subrange(start as int, n as int),
                ),
            decreases n - start,
        {
            let ghost rest = text@.subrange(start as int, n as int);
            proof {
                lemma_first_newline(rest);
            }
            let mut end: usize = start;
            while end < n && text[end] != 10u8
                invariant
                    n == text@.len(),
                    start <= end <= n,
                    rest == text@.subrange(start as int, n as int),
                    forall|k: int| start <= k < end ==> text@[k] != 10u8,
                    end - start <= first_newline(rest),
                decreases n - end,
            {
                proof {
                    lemma_first_newline(rest);
                    if end - start == first_newline(rest) {
                        assert(rest[end - start] == text@[end as int]);
                    }
                }
                end = end + 1;
            }
            proof {
                lemma_first_newline(rest);
                if end - start < first_newline(rest) {
                    if end < n {
                        assert(rest[end - start] == text@[end as int]);
                    }
                }
            }
            assert(end - start == first_newline(rest));
            let mut line: Vec<u8> = Vec::new();
            let mut k: usize = start;
            while k < end
                invariant
                    start <= k <= end <= n,
                    n == text@.len(),
                    line@ == text@.subrange(start as int, k as int),
                decreases end - k,
            {
                line.push(text[k]);
                assert(line@ =~= text@.subrange(start as int, k + 1));
                k = k + 1;
            }
            let ghost before = self@;
            let next: usize = if end < n { end + 1 } else { n };
            assert(rest.subrange(0, first_newline(rest)) =~= line@);
            if end < n {
                assert(rest.subrange(first_newline(rest) + 1, rest.len() as int) =~= text@.subrange(
                    next as int,
                    n as int,
                ));
            } else {
                assert(text@.subrange(next as int, n as int) =~= Seq::<u8>::empty());
            }
            if line.len() > 0 {
                self.lines.push(line);
                assert(self@ =~= before + seq![line@]);
            }
            start = next;
        }
        assert(text@.subrange(n as int, n as int) =~= Seq::<u8>::empty());
        assert(self@ + Seq::<Seq<u8>>::empty() =~= self@);
    }

    /// The last line whose GUID is the lowercase hexadecimal form of `uuid`.
    pub fn get(&self, uuid: [u8; 16]) -> (r: Option<&Vec<u8>>)
        ensures
            r matches Some(l) ==> exists|i: int|
                0 <= i < self@.len() && self@[i] == l@ && has_guid(l@, hex_text(uuid@))
                    && forall|j: int| i < j < self@.len() ==> !has_guid(#[trigger] self@[j], hex_text(uuid@)),
            r is None ==> forall|i: int| 0 <= i < self@.len() ==> !has_guid(#[trigger] self@[i], hex_text(uuid@)),
    {
        let guid = uuid_simple(uuid);
        let n = self.lines.len();
        let mut i: usize = n;
        while i > 0
            invariant
                n == self.lines@.len(),
                0 <= i <= n,
                guid@ == hex_text(uuid@),
                forall|j: int| i <= j < n ==> !has_guid(#[trigger] self@[j], guid@),
            decreases i,
        {
            i = i - 1;
            let line = &self.lines[i];
            if starts_with_guid(line.as_slice(), guid.as_slice()) {
                assert(self@[i as int] == line@);
                return Some(line);
            }
            assert(self@[i as int] == line@);
        }
        None
    }
}

/// Whether `line` starts with `guid` followed by a comma.
fn starts_with_guid(line: &[u8], guid: &[u8]) -> (r: bool)
    ensures
        r == has_guid(line@, guid@),
{
    let g = guid.len();
    if line.len() <= g {
        return false;
    }
    let mut k: usize = 0;
    while k < g
        invariant
            g == guid@.len(),
            g < line@.len(),
            0 <= k <= g,
            forall|j: int| 0 <= j < k ==> line@[j] == guid@[j],
        decreases g - k,
    {
        if line[k] != guid[k] {
            assert(line@.subrange(0, g as int)[k as int] != guid@[k as int]);
            return false;
        }
        k = k + 1;
    }
    assert(line@.subrange(0, g as int) =~= guid@);
    line[g] == 44u8
}

/// Whether every byte is ASCII.
pub open spec fn ascii_bytes(b: Seq<u8>) -> bool {
    forall|i: int| 0 <= i < b.len() ==> #[trigger] b[i] < 128
}

/// Relies on `String::from_utf8_lossy`: valid UTF-8, which ASCII bytes are, is kept as it is.
#[verifier::external_body]
fn text_of(b: &[u8]) -> (r: String)
    ensures
        ascii_bytes(b@) ==> r@ == b@.map_values(|c: u8| c as char),
{
    String::from_utf8_lossy(b).into_owned()
}

/// Index of the first byte `x` of `s`, or its length.
pub open spec fn find_byte(s: Seq<u8>, x: u8) -> int
    decreases s.len(),
{
    if s.len() == 0 {
        0
    } else if s[0] == x {
        0
    } else {
        1 + find_byte(s.drop_first(), x)
    }
}

proof fn lemma_find_byte(s: Seq<u8>, x: u8)
    ensures
        0 <= find_byte(s, x) <= s.len(),
        find_byte(s, x) < s.len() ==> s[find_byte(s, x)] == x,
        forall|k: int| 0 <= k < find_byte(s, x) ==> s[k] != x,
    decreases s.len(),
{
    if s.len() > 0 && s[0] != x {
        lemma_find_byte(s.drop_first(), x);
        assert forall|k: int| 0 <= k < find_byte(s, x) implies s[k] != x by {
            if k > 0 {
                assert(s[k] == s.drop_first()[k - 1]);
            }
        }
    }
}

/// The comma-separated fields of `s`, empty ones included.
pub open spec fn split_fields(s: Seq<u8>) -> Seq<Seq<u8>>
    decreases s.len(),
{
    let i = find_byte(s, 44u8);
    if 0 <= i < s.len() {
        seq![s.subrange(0, i)] + split_fields(s.subrange(i + 1, s.len() as int))
    } else {
        seq![s]
    }
}

/// Element named by an SDL field key; `None` for keys that name no element of the layout.
pub open spec fn sdl_element_spec(key: Seq<u8>) -> Option<AxisOrBtn> {
    if key == seq![97u8] {
        Some(AxisOrBtn::Btn(Button::South))
    } else if key == seq![98u8] {
        Some(AxisOrBtn::Btn(Button::East))
    } else if key == seq![120u8] {
        Some(AxisOrBtn::Btn(Button::West))
    } else if key == seq![121u8] {
        Some(AxisOrBtn::Btn(Button::North))
    } else if key == seq![98u8, 97u8, 99u8, 107u8] {
        Some(AxisOrBtn::Btn(Button::Select))
    } else if key == seq![103u8, 117u8, 105u8, 100u8, 101u8] {
        Some(AxisOrBtn::Btn(Button::Mode))
    } else if key == seq![115u8, 116u8, 97u8, 114u8, 116u8] {
        Some(AxisOrBtn::Btn(Button::Start))
    } else if key == seq![108u8, 101u8, 102u8, 116u8, 115u8, 116u8, 105u8, 99u8, 107u8] {
        Some(AxisOrBtn::Btn(Button::LeftThumb))
    } else if key == seq![114u8, 105u8, 103u8, 104u8, 116u8, 115u8, 116u8, 105u8, 99u8, 107u8] {
        Some(AxisOrBtn::Btn(Button::RightThumb))
    } else if key == seq![108u8, 101u8, 102u8, 116u8, 115u8, 104u8, 111u8, 117u8, 108u8, 100u8, 101u8, 114u8] {
        Some(AxisOrBtn::Btn(Button::LeftTrigger))
    } else if key == seq![114u8, 105u8, 103u8, 104u8, 116u8, 115u8, 104u8, 111u8, 117u8, 108u8, 100u8, 101u8, 114u8] {
        Some(AxisOrBtn::Btn(Button::RightTrigger))
    } else if key == seq![108u8, 101u8, 102u8, 116u8, 116u8, 114u8, 105u8, 103u8, 103u8, 101u8, 114u8] {
        Some(AxisOrBtn::Btn(Button::LeftTrigger2))
    } else if key == seq![114u8, 105u8, 103u8, 104u8, 116u8, 116u8, 114u8, 105u8, 103u8, 103u8, 101u8, 114u8] {
        Some(AxisOrBtn::Btn(Button::RightTrigger2))
    } else if key == seq![100u8, 112u8, 117u8, 112u8] {
        Some(AxisOrBtn::Btn(Button::DPadUp))
    } else if key == seq![100u8, 112u8, 100u8, 111u8, 119u8, 110u8] {
        Some(AxisOrBtn::Btn(Button::DPadDown))
    } else if key == seq![100u8, 112u8, 108u8, 101u8, 102u8, 116u8] {
        Some(AxisOrBtn::Btn(Button::DPadLeft))
    } else if key == seq![100u8, 112u8, 114u8, 105u8, 103u8, 104u8, 116u8] {
        Some(AxisOrBtn::Btn(Button::DPadRight))
    } else if key == seq![108u8, 101u8, 102u8, 116u8, 120u8] {
        Some(AxisOrBtn::Axis(Axis::LeftStickX))
    } else if key == seq![108u8, 101u8, 102u8, 116u8, 121u8] {
        Some(AxisOrBtn::Axis(Axis::LeftStickY))
    } else if key == seq![114u8, 105u8, 103u8, 104u8, 116u8, 120u8] {
        Some(AxisOrBtn::Axis(Axis::RightStickX))
    } else if key == seq![114u8, 105u8, 103u8, 104u8, 116u8, 121u8] {
        Some(AxisOrBtn::Axis(Axis::RightStickY))
    } else {
        None
    }
}

/// Value of a string of decimal digits.
pub open spec fn digits_value(s: Seq<u8>) -> nat
    decreases s.len(),
{
    if s.len() == 0 {
        0
    } else {
        digits_value(s.drop_last()) * 10 + (s.last() - 48) as nat
    }
}

/// One to five decimal digits.
pub open spec fn is_small_number(s: Seq<u8>) -> bool {
    &&& 1 <= s.len() <= 5
    &&& forall|i: int| 0 <= i < s.len() ==> 48 <= #[trigger] s[i] <= 57
}

/// What one field after the name contributes: nothing (empty field, unknown key, code of
/// another shape), an entry, or an error. `bN` names `buttons[N]` and `aN` names `axes[N]`.
pub open spec fn field_spec(f: Seq<u8>, buttons: Seq<EvCode>, axes: Seq<EvCode>) -> Option<
    Result<(EvCode, AxisOrBtn), MappingError>,
> {
    let c = find_byte(f, 58u8);
    if f.len() == 0 {
        None
    } else if c >= f.len() {
        Some(Err(MappingError::ParseError))
    } else {
        match sdl_element_spec(f.subrange(0, c)) {
            None => None,
            Some(e) => {
                let v = f.subrange(c + 1, f.len() as int);
                if v.len() >= 1 && (v[0] == 98u8 || v[0] == 97u8) && is_small_number(
                    v.drop_first(),
                ) {
                    let n = digits_value(v.drop_first());
                    let list = if v[0] == 98u8 {
                        buttons
                    } else {
                        axes
                    };
                    if n < list.len() {
                        Some(Ok((list[n as int], e)))
                    } else {
                        Some(Err(MappingError::InvalidCode))
                    }
                } else {
                    None
                }
            },
        }
    }
}

/// Entries of the fields in order, or the error of the first field that has one.
pub open spec fn fields_entries(fs: Seq<Seq<u8>>, buttons: Seq<EvCode>, axes: Seq<EvCode>) -> Result<
    Seq<(EvCode, AxisOrBtn)>,
    MappingError,
>
    decreases fs.len(),
{
    if fs.len() == 0 {
        Ok(Seq::<(EvCode, AxisOrBtn)>::empty())
    } else {
        let rest = fields_entries(fs.drop_first(), buttons, axes);
        match field_spec(fs[0], buttons, axes) {
            Some(Err(e)) => Err(e),
            Some(Ok(en)) => match rest {
                Ok(es) => Ok(seq![en] + es),
                Err(e) => Err(e),
            },
            None => rest,
        }
    }
}

/// `es` in front of the entries of `r`.
pub open spec fn prepend(es: Seq<(EvCode, AxisOrBtn)>, r: Result<Seq<(EvCode, AxisOrBtn)>, MappingError>) -> Result<
    Seq<(EvCode, AxisOrBtn)>,
    MappingError,
> {
    match r {
        Ok(rest) => Ok(es + rest),
        Err(e) => Err(e),
    }
}

/// An SDL mapping line as its entries and name: `GUID,name,field:code,...`.
pub open spec fn parse_spec(line: Seq<u8>, buttons: Seq<EvCode>, axes: Seq<EvCode>) -> Result<
    (Seq<(EvCode, AxisOrBtn)>, Seq<u8>),
    MappingError,
> {
    let fs = split_fields(line);
    if fs.len() < 2 {
        Err(MappingError::ParseError)
    } else {
        match fields_entries(fs.skip(2), buttons, axes) {
            Ok(es) => Ok((es, fs[1])),
            Err(e) => Err(e),
        }
    }
}

/// Entries read from fields never name an `Unknown` element.
proof fn lemma_fields_entries_known(fs: Seq<Seq<u8>>, buttons: Seq<EvCode>, axes: Seq<EvCode>)
    ensures
        fields_entries(fs, buttons, axes) matches Ok(es) ==> forall|i: int|
            0 <= i < es.len() ==> !(#[trigger] es[i]).1.is_unknown_spec(),
    decreases fs.len(),
{
    if fs.len() > 0 {
        lemma_fields_entries_known(fs.drop_first(), buttons, axes);
        if let Ok(es) = fields_entries(fs, buttons, axes) {
            if let Some(Ok(en)) = field_spec(fs[0], buttons, axes) {
                let rest = fields_entries(fs.drop_first(), buttons, axes);
                assert(rest is Ok);
                assert(!en.1.is_unknown_spec());
                assert forall|i: int| 0 <= i < es.len() implies !(#[trigger] es[i]).1.is_unknown_spec() by {
                    if i > 0 {
                        assert(es[i] == rest->Ok_0[i - 1]);
                    }
                }
            }
        }
    }
}

/// Whether `b[start..end]` spells `w`.
fn spells(b: &[u8], start: usize, end: usize, w: &[u8]) -> (r: bool)
    requires
        start <= end <= b@.len(),
    ensures
        r == (b@.subrange(start as int, end as int) == w@),
{
    if end - start != w.len() {
        return false;
    }
    let mut k: usize = 0;
    while k < w.len()
        invariant
            start <= end <= b@.len(),
            end - start == w@.len(),
            0 <= k <= w@.len(),
            forall|j: int| 0 <= j < k ==> b@[start + j] == w@[j],
        decreases w@.len() - k,
    {
        if b[start + k] != w[k] {
            assert(b@.subrange(start as int, end as int)[k as int] != w@[k as int]);
            return false;
        }
        k = k + 1;
    }
    assert(b@.subrange(start as int, end as int) =~= w@);
    true
}

/// Element named by the SDL field key `b[start..end]`.
fn sdl_element(b: &[u8], start: usize, end: usize) -> (r: Option<AxisOrBtn>)
    requires
        start <= end <= b@.len(),
    ensures
        r == sdl_element_spec(b@.subrange(start as int, end as int)),
{
    let w0: [u8; 1] = [97u8];
    proof {
        assert(w0@ =~= seq![97u8]);
    }
    let w1: [u8; 1] = [98u8];
    proof {
        assert(w1@ =~= seq![98u8]);
    }
    let w2: [u8; 1] = [120u8];
    proof {
        assert(w2@ =~= seq![120u8]);
    }
    let w3: [u8; 1] = [121u8];
    proof {
        assert(w3@ =~= seq![121u8]);
    }
    let w4: [u8; 4] = [98u8, 97u8, 99u8, 107u8];
    proof {
        assert(w4@ =~= seq![98u8, 97u8, 99u8, 107u8]);
    }
    let w5: [u8; 5] = [103u8, 117u8, 105u8, 100u8, 101u8];
    proof {
        assert(w5@ =~= seq![103u8, 117u8, 105u8, 100u8, 101u8]);
    }
    let w6: [u8; 5] = [115u8, 116u8, 97u8, 114u8, 116u8];
    proof {
        assert(w6@ =~= seq![115u8, 116u8, 97u8, 114u8, 116u8]);
    }
    let w7: [u8; 9] = [108u8, 101u8, 102u8, 116u8, 115u8, 116u8, 105u8, 99u8, 107u8];
    proof {
        assert(w7@ =~= seq![108u8, 101u8, 102u8, 116u8, 115u8, 116u8, 105u8, 99u8, 107u8]);
    }
    let w8: [u8; 10] = [114u8, 105u8, 103u8, 104u8, 116u8, 115u8, 116u8, 105u8, 99u8, 107u8];
    proof {
        assert(w8@ =~= seq![114u8, 105u8, 103u8, 104u8, 116u8, 115u8, 116u8, 105u8, 99u8, 107u8]);
    }
    let w9: [u8; 12] = [108u8, 101u8, 102u8, 116u8, 115u8, 104u8, 111u8, 117u8, 108u8, 100u8, 101u8, 114u8];
    proof {
        assert(w9@ =~= seq![108u8, 101u8, 102u8, 116u8, 115u8, 104u8, 111u8, 117u8, 108u8, 100u8, 101u8, 114u8]);
    }
    let w10: [u8; 13] = [114u8, 105u8, 103u8, 104u8, 116u8, 115u8, 104u8, 111u8, 117u8, 108u8, 100u8, 101u8, 114u8];
    proof {
        assert(w10@ =~= seq![114u8, 105u8, 103u8, 104u8, 116u8, 115u8, 104u8, 111u8, 117u8, 108u8, 100u8, 101u8, 114u8]);
    }
    let w11: [u8; 11] = [108u8, 101u8, 102u8, 116u8, 116u8, 114u8, 105u8, 103u8, 103u8, 101u8, 114u8];
    proof {
        assert(w11@ =~= seq![108u8, 101u8, 102u8, 116u8, 116u8, 114u8, 105u8, 103u8, 103u8, 101u8, 114u8]);
    }
    let w12: [u8; 12] = [114u8, 105u8, 103u8, 104u8, 116u8, 116u8, 114u8, 105u8, 103u8, 103u8, 101u8, 114u8];
    proof {
        assert(w12@ =~= seq![114u8, 105u8, 103u8, 104u8, 116u8, 116u8, 114u8, 105u8, 103u8, 103u8, 101u8, 114u8]);
    }
    let w13: [u8; 4] = [100u8, 112u8, 117u8, 112u8];
    proof {
        assert(w13@ =~= seq![100u8, 112u8, 117u8, 112u8]);
    }
    let w14: [u8; 6] = [100u8, 112u8, 100u8, 111u8, 119u8, 110u8];
    proof {
        assert(w14@ =~= seq![100u8, 112u8, 100u8, 111u8, 119u8, 110u8]);
    }
    let w15: [u8; 6] = [100u8, 112u8, 108u8, 101u8, 102u8, 116u8];
    proof {
        assert(w15@ =~= seq![100u8, 112u8, 108u8, 101u8, 102u8, 116u8]);
    }
    let w16: [u8; 7] = [100u8, 112u8, 114u8, 105u8, 103u8, 104u8, 116u8];
    proof {
        assert(w16@ =~= seq![100u8, 112u8, 114u8, 105u8, 103u8, 104u8, 116u8]);
    }
    let w17: [u8; 5] = [108u8, 101u8, 102u8, 116u8, 120u8];
    proof {
        assert(w17@ =~= seq![108u8, 101u8, 102u8, 116u8, 120u8]);
    }
    let w18: [u8; 5] = [108u8, 101u8, 102u8, 116u8, 121u8];
    proof {
        assert(w18@ =~= seq![108u8, 101u8, 102u8, 116u8, 121u8]);
    }
    let w19: [u8; 6] = [114u8, 105u8, 103u8, 104u8, 116u8, 120u8];
    proof {
        assert(w19@ =~= seq![114u8, 105u8, 103u8, 104u8, 116u8, 120u8]);
    }
    let w20: [u8; 6] = [114u8, 105u8, 103u8, 104u8, 116u8, 121u8];
    proof {
        assert(w20@ =~= seq![114u8, 105u8, 103u8, 104u8, 116u8, 121u8]);
    }
    if spells(b, start, end, &w0) {
        Some(AxisOrBtn::Btn(Button::South))
    } else if spells(b, start, end, &w1) {
        Some(AxisOrBtn::Btn(Button::East))
    } else if spells(b, start, end, &w2) {
        Some(AxisOrBtn::Btn(Button::West))
    } else if spells(b, start, end, &w3) {
        Some(AxisOrBtn::Btn(Button::North))
    } else if spells(b, start, end, &w4) {
        Some(AxisOrBtn::Btn(Button::Select))
    } else if spells(b, start, end, &w5) {
        Some(AxisOrBtn::Btn(Button::Mode))
    } else if spells(b, start, end, &w6) {
        Some(AxisOrBtn::Btn(Button::Start))
    } else if spells(b, start, end, &w7) {
        Some(AxisOrBtn::Btn(Button::LeftThumb))
    } else if spells(b, start, end, &w8) {
        Some(AxisOrBtn::Btn(Button::RightThumb))
    } else if spells(b, start, end, &w9) {
        Some(AxisOrBtn::Btn(Button::LeftTrigger))
    } else if spells(b, start, end, &w10) {
        Some(AxisOrBtn::Btn(Button::RightTrigger))
    } else if spells(b, start, end, &w11) {
        Some(AxisOrBtn::Btn(Button::LeftTrigger2))
    } else if spells(b, start, end, &w12) {
        Some(AxisOrBtn::Btn(Button::RightTrigger2))
    } else if spells(b, start, end, &w13) {
        Some(AxisOrBtn::Btn(Button::DPadUp))
    } else if spells(b, start, end, &w14) {
        Some(AxisOrBtn::Btn(Button::DPadDown))
    } else if spells(b, start, end, &w15) {
        Some(AxisOrBtn::Btn(Button::DPadLeft))
    } else if spells(b, start, end, &w16) {
        Some(AxisOrBtn::Btn(Button::DPadRight))
    } else if spells(b, start, end, &w17) {
        Some(AxisOrBtn::Axis(Axis::LeftStickX))
    } else if spells(b, start, end, &w18) {
        Some(AxisOrBtn::Axis(Axis::LeftStickY))
    } else if spells(b, start, end, &w19) {
        Some(AxisOrBtn::Axis(Axis::RightStickX))
    } else if spells(b, start, end, &w20) {
        Some(AxisOrBtn::Axis(Axis::RightStickY))
    } else {
        None
    }
}

/// Decimal number spelled by `b[start..end]`, if it is one to five digits.
fn small_number(b: &[u8], start: usize, end: usize) -> (r: Option<usize>)
    requires
        start <= end <= b@.len(),
    ensures
        is_small_number(b@.subrange(start as int, end as int)) ==> r == Some(
            digits_value(b@.subrange(start as int, end as int)) as usize,
        ) && digits_value(b@.subrange(start as int, end as int)) < 100000,
        !is_small_number(b@.subrange(start as int, end as int)) ==> r is None,
{
    let ghost s = b@.subrange(start as int, end as int);
    if end <= start || end - start > 5 {
        return None;
    }
    let mut v: usize = 0;
    let mut k: usize = start;
    while k < end
        invariant
            start <= k <= end <= b@.len(),
            end - start <= 5,
            s == b@.subrange(start as int, end as int),
            v == digits_value(b@.subrange(start as int, k as int)),
            v < pow10((k - start) as nat),
            forall|i: int| start <= i < k ==> 48 <= #[trigger] b@[i] <= 57,
        decreases end - k,
    {
        let d = b[k];
        if d < 48 || d > 57 {
            assert(s[k - start] == d);
            return None;
        }
        proof {
            lemma_pow10_step((k - start) as nat);
            lemma_pow10_mono((k - start) as nat);
            assert(v * 10 + 9 < 100000) by (nonlinear_arith)
                requires
                    v < pow10((k - start) as nat),
                    pow10((k - start) as nat) <= 10000,
            ;
            assert(b@.subrange(start as int, k + 1).drop_last() =~= b@.subrange(start as int, k as int));
        }
        v = v * 10 + (d - 48) as usize;
        k = k + 1;
    }
    proof {
        lemma_pow10_mono((end - start) as nat);
        assert forall|i: int| 0 <= i < s.len() implies 48 <= #[trigger] s[i] <= 57 by {
            assert(s[i] == b@[start + i]);
        }
    }
    Some(v)
}

spec fn pow10(n: nat) -> nat
    decreases n,
{
    if n == 0 {
        1
    } else {
        10 * pow10((n - 1) as nat)
    }
}

proof fn lemma_pow10_step(n: nat)
    ensures
        pow10(n + 1) == 10 * pow10(n),
{
}

proof fn lemma_pow10_mono(n: nat)
    requires
        n <= 5,
    ensures
        pow10(n) <= 100000,
        n <= 4 ==> pow10(n) <= 10000,
{
    reveal_with_fuel(pow10, 6);
}

/// Contribution of the field `line[start..end]`.
fn field_outcome(line: &[u8], start: usize, end: usize, buttons: &[EvCode], axes: &[EvCode]) -> (r:
    Option<Result<(EvCode, AxisOrBtn), MappingError>>)
    requires
        start <= end <= line@.len(),
    ensures
        r == field_spec(line@.subrange(start as int, end as int), buttons@, axes@),
{
    let ghost f = line@.subrange(start as int, end as int);
    proof {
        lemma_find_byte(f, 58u8);
    }
    if end == start {
        return None;
    }
    let mut colon: usize = start;
    while colon < end && line[colon] != 58u8
        invariant
            start <= colon <= end <= line@.len(),
            f == line@.subrange(start as int, end as int),
            colon - start <= find_byte(f, 58u8),
            forall|j: int| start <= j < colon ==> line@[j] != 58u8,
        decreases end - colon,
    {
        proof {
            lemma_find_byte(f, 58u8);
            assert(f[colon - start] == line@[colon as int]);
        }
        colon = colon + 1;
    }
    proof {
        if colon < end {
            assert(f[colon - start] == line@[colon as int]);
        }
    }
    assert(colon - start == find_byte(f, 58u8));
    if colon == end {
        return Some(Err(MappingError::ParseError));
    }
    assert(f.subrange(0, colon - start) =~= line@.subrange(start as int, colon as int));
    let element = sdl_element(line, start, colon);
    match element {
        None => None,
        Some(e) => {
            let vs = colon + 1;
            let ghost v = f.subrange(colon - start + 1, f.len() as int);
            assert(v =~= line@.subrange(vs as int, end as int));
            if vs < end && (line[vs] == 98u8 || line[vs] == 97u8) {
                assert(v[0] == line@[vs as int]);
                assert(v.drop_first() =~= line@.subrange(vs + 1, end as int));
                let is_button = line[vs] == 98u8;
                match small_number(line, vs + 1, end) {
                    Some(idx) => {
                        let list = if is_button {
                            buttons
                        } else {
                            axes
                        };
                        if idx < list.len() {
                            Some(Ok((list[idx], e)))
                        } else {
                            Some(Err(MappingError::InvalidCode))
                        }
                    },
                    None => None,
                }
            } else {
                None
            }
        },
    }
}

/// Parses one SDL mapping line, `GUID,name,field:code,...`, for a device whose button codes
/// are `buttons` and axis codes are `axes`: the result is [`parse_spec`]'s, with its entries
/// checked as [`Mapping::from_entries`] does.
pub fn parse_sdl_mapping(line: &[u8], buttons: &[EvCode], axes: &[EvCode]) -> (r: Result<
    Mapping,
    MappingError,
>)
    ensures
        parse_spec(line@, buttons@, axes@) matches Err(e) ==> r == Err::<Mapping, MappingError>(e),
        parse_spec(line@, buttons@, axes@) matches Ok((es, name)) ==> {
            &&& (r is Ok <==> entries_wf(es))
            &&& !entries_wf(es) ==> r == Err::<Mapping, MappingError>(MappingError::DuplicatedEntry)
            &&& r matches Ok(m) ==> {
                &&& m.wf()
                &&& !m.is_default_spec()
                &&& m.entries_spec() == es
                &&& ascii_bytes(name) ==> m.name_spec() == name.map_values(|c: u8| c as char)
            }
        },
{
    let n = line.len();
    let ghost fs = split_fields(line@);
    let mut entries: Vec<(EvCode, AxisOrBtn)> = Vec::new();
    let mut name_start: usize = 0;
    let mut name_end: usize = 0;
    let mut field: usize = 0;
    let ghost mut fi: int = 0;
    let mut start: usize = 0;
    let mut done = false;
    proof {
        assert(line@.subrange(0, n as int) =~= line@);
        assert(fs.skip(0) =~= fs);
    }
    while !done
        invariant
            n == line@.len(),
            start <= n,
            name_start <= name_end <= n,
            fs == split_fields(line@),
            field as int == if fi < 2 { fi } else { 2 },
            0 <= fi,
            !done ==> fs.skip(fi) == split_fields(line@.subrange(start as int, n as int)),
            !done ==> fi < fs.len(),
            done ==> fi == fs.len(),
            fi >= 2 ==> fs[1] == line@.subrange(name_start as int, name_end as int),
            fi < 2 ==> entries@.len() == 0,
            fs.len() >= 2 && fi >= 2 ==> fields_entries(fs.skip(2), buttons@, axes@) == prepend(
                entries@,
                fields_entries(fs.skip(fi), buttons@, axes@),
            ),
        decreases n + 1 - start - (if done { 1int } else { 0int }),
    {
        let ghost rest = line@.subrange(start as int, n as int);
        proof {
            lemma_find_byte(rest, 44u8);
        }
        let mut end: usize = start;
        while end < n && line[end] != 44u8
            invariant
                n == line@.len(),
                start <= end <= n,
                rest == line@.subrange(start as int, n as int),
                end - start <= find_byte(rest, 44u8),
                forall|k: int| start <= k < end ==> line@[k] != 44u8,
            decreases n - end,
        {
            proof {
                lemma_find_byte(rest, 44u8);
                assert(rest[end - start] == line@[end as int]);
            }
            end = end + 1;
        }
        proof {
            if end < n {
                assert(rest[end - start] == line@[end as int]);
            }
        }
        assert(end - start == find_byte(rest, 44u8));
        let ghost field_text = line@.subrange(start as int, end as int);
        assert(rest.subrange(0, end - start) =~= field_text);
        proof {
            if end < n {
                assert(rest.subrange(end - start + 1, rest.len() as int) =~= line@.subrange(
                    end + 1,
                    n as int,
                ));
            }
            assert(fs.skip(fi)[0] == field_text);
            assert(fs.skip(fi).drop_first() =~= fs.skip(fi + 1));
            if fi == 2 {
                assert(fs.len() >= 2);
                match fields_entries(fs.skip(2), buttons@, axes@) {
                    Ok(t) => {
                        assert(entries@ + t =~= t);
                    },
                    Err(_) => {},
                }
            }
        }
        if field == 1 {
            name_start = start;
            name_end = end;
        } else if field >= 2 {
            let outcome = field_outcome(line, start, end, buttons, axes);
            proof {
                assert(fs.skip(fi).len() > 0);
                assert(field_spec(fs.skip(fi)[0], buttons@, axes@) == outcome);
            }
            match outcome {
                Some(Err(e)) => {
                    proof {
                        assert(fields_entries(fs.skip(fi), buttons@, axes@) == Err::<
                            Seq<(EvCode, AxisOrBtn)>,
                            MappingError,
                        >(e));
                    }
                    return Err(e);
                },
                Some(Ok(en)) => {
                    let ghost before = entries@;
                    entries.push(en);
                    proof {
                        assert(entries@ =~= before + seq![en]);
                        let tail = fields_entries(fs.skip(fi + 1), buttons@, axes@);
                        match tail {
                            Ok(t) => {
                                assert(before + (seq![en] + t) =~= entries@ + t);
                            },
                            Err(_) => {},
                        }
                    }
                },
                None => {},
            }
        }
        if end < n {
            start = end + 1;
            proof {
                let r2 = line@.subrange(start as int, n as int);
                assert(split_fields(r2).len() >= 1);
                assert(fs.skip(fi + 1).len() >= 1);
            }
        } else {
            done = true;
            proof {
                assert(fs.skip(fi + 1) =~= Seq::<Seq<u8>>::empty());
            }
        }
        if field < 2 {
            field = field + 1;
        }
        proof {
            fi = fi + 1;
        }
    }
    if field < 2 {
        return Err(MappingError::ParseError);
    }
    proof {
        assert(fs.skip(fi) =~= Seq::<Seq<u8>>::empty());
        assert(entries@ + Seq::<(EvCode, AxisOrBtn)>::empty() =~= entries@);
    }
    let name_bytes = slice_subrange(line, name_start, name_end);
    let name = text_of(name_bytes);
    proof {
        lemma_fields_entries_known(fs.skip(2), buttons@, axes@);
    }
    Mapping::from_entries(entries, name)
}

} // verus!
