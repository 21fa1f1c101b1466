use vstd::prelude::*;

verus! {

/// The character of one decimal digit.
pub open spec fn digit(d: nat) -> char {
    if d == 0 {
        '0'
    } else if d == 1 {
        '1'
    } else if d == 2 {
        '2'
    } else if d == 3 {
        '3'
    } else if d == 4 {
        '4'
    } else if d == 5 {
        '5'
    } else if d == 6 {
        '6'
    } else if d == 7 {
        '7'
    } else if d == 8 {
        '8'
    } else {
        '9'
    }
}

/// The decimal notation of `n`, without leading zeros.
pub open spec fn dec(n: nat) -> Seq<char>
    decreases n,
{
    if n < 10 {
        seq![digit(n)]
    } else {
        dec(n / 10).push(digit(n % 10))
    }
}

/// The decimal notation of an integer, with a minus sign where it is negative.
pub open spec fn dec_int(n: int) -> Seq<char> {
    if n < 0 {
        "-"@ + dec((-n) as nat)
    } else {
        dec(n as nat)
    }
}

/// Numbers in decimal, separated by a comma and a space.
pub open spec fn dec_list(v: Seq<usize>) -> Seq<char>
    decreases v.len(),
{
    if v.len() == 0 {
        Seq::empty()
    } else if v.len() == 1 {
        dec(v[0] as nat)
    } else {
        dec_list(v.drop_last()) + ", "@ + dec(v.last() as nat)
    }
}

/// Words separated by a comma and a space.
pub open spec fn word_list(v: Seq<Seq<char>>) -> Seq<char>
    decreases v.len(),
{
    if v.len() == 0 {
        Seq::empty()
    } else if v.len() == 1 {
        v[0]
    } else {
        word_list(v.drop_last()) + ", "@ + v.last()
    }
}

/// The characters of each string of a list.
pub open spec fn words(v: Seq<String>) -> Seq<Seq<char>> {
    v.map_values(|s: String| s@)
}

/// The characters of an optional string.
pub open spec fn opt_chars(s: Option<String>) -> Option<Seq<char>> {
    match s {
        Some(s) => Some(s@),
        None => None,
    }
}

/// A message under construction: text and numbers are appended left to right.
pub struct Text {
    buf: String,
}

impl View for Text {
    type V = Seq<char>;

    closed spec fn view(&self) -> Seq<char> {
        self.buf@
    }
}

fn digit_str(d: u64) -> (s: &'static str)
    requires
        d < 10,
    ensures
        s@ == seq![digit(d as nat)],
{
    proof {
        reveal_strlit("0");
        reveal_strlit("1");
        reveal_strlit("2");
        reveal_strlit("3");
        reveal_strlit("4");
        reveal_strlit("5");
        reveal_strlit("6");
        reveal_strlit("7");
        reveal_strlit("8");
        reveal_strlit("9");
    }
    if d == 0 {
        "0"
    } else if d == 1 {
        "1"
    } else if d == 2 {
        "2"
    } else if d == 3 {
        "3"
    } else if d == 4 {
        "4"
    } else if d == 5 {
        "5"
    } else if d == 6 {
        "6"
    } else if d == 7 {
        "7"
    } else if d == 8 {
        "8"
    } else {
        "9"
    }
}

fn push_decimal(buf: &mut String, n: u64)
    ensures
        final(buf)@ == old(buf)@ + dec(n as nat),
    decreases n,
{
    if n < 10 {
        buf.append(digit_str(n));
    } else {
        push_decimal(buf, n / 10);
        buf.append(digit_str(n % 10));
        assert(buf@ == old(buf)@ + dec(n as nat));
    }
}

impl Text {
    /// Starts a message.
    pub fn new(s: &str) -> (t: Text)
        ensures
            t@ == s@,
    {
        Text { buf: String::from_str(s) }
    }

    /// Appends text.
    pub fn s(self, s: &str) -> (t: Text)
        ensures
            t@ == self@ + s@,
    {
        Text { buf: self.buf.concat(s) }
    }

    /// Appends a number in decimal.
    pub fn n(self, n: usize) -> (t: Text)
        ensures
            t@ == self@ + dec(n as nat),
    {
        let mut buf = self.buf;
        push_decimal(&mut buf, n as u64);
        Text { buf }
    }

    /// Appends a 64-bit number in decimal.
    pub fn n64(self, n: u64) -> (t: Text)
        ensures
            t@ == self@ + dec(n as nat),
    {
        let mut buf = self.buf;
        push_decimal(&mut buf, n);
        Text { buf }
    }

    /// Appends an integer in decimal.
    pub fn i(self, n: i128) -> (t: Text)
        requires
            -0xffff_ffff_ffff_ffff <= n <= 0xffff_ffff_ffff_ffff,
        ensures
            t@ == self@ + dec_int(n as int),
    {
        let mut buf = self.buf;
        if n < 0 {
            buf.append("-");
            push_decimal(&mut buf, (-n) as u64);
            assert(buf@ =~= self@ + dec_int(n as int));
        } else {
            push_decimal(&mut buf, n as u64);
        }
        Text { buf }
    }

    /// Appends `[a, b, c]`, the numbers in decimal.
    pub fn list(self, v: &[usize]) -> (t: Text)
        ensures
            t@ == self@ + ("["@ + dec_list(v@) + "]"@),
    {
        let mut t: Text = Text::new("");
        let ghost start = Seq::<char>::empty();
        proof {
            reveal_strlit("");
            assert(t@ =~= start);
        }
        let mut i: usize = 0;
        while i < v.len()
            invariant
                i <= v@.len(),
                t@ == dec_list(v@.take(i as int)),
            decreases v@.len() - i,
        {
            proof {
                assert(v@.take(i + 1).drop_last() == v@.take(i as int));
            }
            if i > 0 {
                t = t.s(", ");
            }
            t = t.n(v[i]);
            proof {
                assert(t@ =~= dec_list(v@.take(i + 1)));
            }
            i = i + 1;
        }
        proof {
            assert(v@.take(i as int) == v@);
        }
        let out = self.s("[").s(t.done().as_str()).s("]");
        proof {
            assert(out@ =~= self@ + ("["@ + dec_list(v@) + "]"@));
        }
        out
    }

    /// The finished message.
    pub fn done(self) -> (s: String)
        ensures
            s@ == self@,
    {
        self.buf
    }
}

/// Joins words with a comma and a space.
pub fn join_words(v: &Vec<String>) -> (s: String)
    ensures
        s@ == word_list(words(v@)),
{
    let mut t: Text = Text::new("");
    proof {
        reveal_strlit("");
        assert(t@ =~= Seq::<char>::empty());
    }
    let mut i: usize = 0;
    while i < v.len()
        invariant
            i <= v@.len(),
            t@ == word_list(words(v@).take(i as int)),
        decreases v@.len() - i,
    {
        proof {
            assert(words(v@).take(i + 1).drop_last() == words(v@).take(i as int));
        }
        if i > 0 {
            t = t.s(", ");
        }
        t = t.s(v[i].as_str());
        proof {
            assert(t@ =~= word_list(words(v@).take(i + 1)));
        }
        i = i + 1;
    }
    proof {
        assert(words(v@).take(i as int) == words(v@));
    }
    t.done()
}

/// The characters of a string, one after the other.
pub fn chars_vec(s: &str) -> (v: Vec<char>)
    ensures
        v@ == s@,
{
    let mut v: Vec<char> = Vec::new();
    for c in it: s.chars()
        invariant
            v@ == it.seq().take(it.index() as int),
            it.seq() == s@,
    {
        v.push(c);
        proof {
            assert(it.seq().take(it.index() + 1) =~= it.seq().take(it.index() as int).push(c));
        }
    }
    proof {
        assert(s@.take(s@.len() as int) =~= s@);
    }
    v
}

/// A copy of an optional string.
pub fn clone_opt(s: &Option<String>) -> (r: Option<String>)
    ensures
        opt_chars(r) == opt_chars(*s),
{
    match s {
        Some(s) => Some(s.clone()),
        None => None,
    }
}

/// Whether two strings hold the same characters.
pub fn same_text(a: &str, b: &str) -> (r: bool)
    ensures
        r == (a@ == b@),
{
    String::from_str(a) == String::from_str(b)
}

/// How floating-point numbers are printed. Nothing is demanded of the texts; the
/// contracts say which number was printed, and where its text went.
pub trait FloatText {
    /// The `Debug` text of the single-precision number with the given bit pattern.
    fn single(&self, bits: u32) -> String;

    /// The `Debug` text of the double-precision number with the given bit pattern.
    fn double(&self, bits: u64) -> String;
}

/// `s` may be the text of a single-precision number.
pub open spec fn prints_single<F: FloatText>(text: &F, bits: u32, s: String) -> bool {
    call_ensures(F::single, (text, bits), s)
}

/// `s` may be the text of a double-precision number.
pub open spec fn prints_double<F: FloatText>(text: &F, bits: u64, s: String) -> bool {
    call_ensures(F::double, (text, bits), s)
}

} // verus!
