//! Random generation of text inputs.
//!
//! A [`StringGen`] couples a generation method with a character set and
//! produces random strings of a requested length; [`TextInput`] wraps
//! the generated bytes as an input for the measured algorithms.

use vstd::arithmetic::div_mod::*;
use vstd::prelude::*;

use crate::input::distribution::rand_below;
use crate::input::Input;
use crate::Error;

verus! {

/// Relies on `alloc::string::String::push`: appends the given character
/// to the end of the string.
pub assume_specification[ String::push ](s: &mut String, ch: char)
    ensures
        final (s)@ == old(s)@.push(ch),
;

/// Every character of the sequence is plain ASCII.
pub open spec fn all_ascii(cs: Seq<char>) -> bool {
    forall|i: int| 0 <= i < cs.len() ==> (#[trigger] cs[i]) as u32 <= 127
}

/// No character of the sequence occurs twice.
pub open spec fn no_repeats(cs: Seq<char>) -> bool {
    forall|i: int, j: int| 0 <= i < j < cs.len() ==> cs[i] != cs[j]
}

/// How a random string is generated from a character set.
#[derive(Clone, Copy, Debug, PartialEq, Eq, Structural)]
pub enum GenMethod {
    /// Every character drawn independently from the set.
    RandomChars,
    /// A random prefix of random characters, continued periodically.
    PeriodicTail,
    /// The characters of the set taken in rotation, the last one doubled.
    CyclicChars,
}

/// A generation method under its display name.
#[derive(Clone, Copy, Debug)]
pub struct StringGenFunction {
    /// The display name of the method.
    pub name: &'static str,
    /// The method itself.
    pub method: GenMethod,
}

impl StringGenFunction {
    /// The independently-random method, under its name.
    pub fn method1() -> (r: StringGenFunction)
        ensures
            r.method == GenMethod::RandomChars,
    {
        StringGenFunction { name: "Method 1", method: GenMethod::RandomChars }
    }

    /// The periodic-continuation method, under its name.
    pub fn method2() -> (r: StringGenFunction)
        ensures
            r.method == GenMethod::PeriodicTail,
    {
        StringGenFunction { name: "Method 2", method: GenMethod::PeriodicTail }
    }

    /// The rotating method, under its name.
    pub fn method4() -> (r: StringGenFunction)
        ensures
            r.method == GenMethod::CyclicChars,
    {
        StringGenFunction { name: "Method 4", method: GenMethod::CyclicChars }
    }
}

/// The string continues periodically after its prefix of length `q`:
/// every later character repeats the one `q + 1` places earlier. (When
/// the prefix is empty the first character is free and the repetition
/// starts after it.)
pub open spec fn periodic_tail(cs: Seq<char>, q: int) -> bool {
    forall|i: int|
        (if q == 0 {
            1int
        } else {
            q
        }) <= i < cs.len() ==> #[trigger] cs[i] == cs[(i - 1) % (q + 1)]
}

/// The character a rotating generation places at position `i` of a
/// string of length `n` over the character set `cs`: the set in
/// rotation, with the character before the last repeated at the end.
pub open spec fn cyclic_char(cs: Seq<char>, n: int, i: int) -> char {
    if i < n - 1 {
        cs[i % cs.len() as int]
    } else if n == 1 {
        cs[0]
    } else {
        cs[(n - 2) % cs.len() as int]
    }
}

/// A random-string generator: a generation method over a character set.
pub struct StringGen {
    /// The generation method.
    pub function: StringGenFunction,
    /// The characters the generated strings are drawn from.
    pub char_set: Vec<char>,
}

impl StringGen {
    /// A valid generator: a non-empty ASCII character set without
    /// repetitions.
    pub open spec fn wf(&self) -> bool {
        self.char_set@.len() >= 1 && all_ascii(self.char_set@) && no_repeats(self.char_set@)
    }

    /// Creates a generator, rejecting an empty character set, one with
    /// repeated characters, and one with non-ASCII characters.
    pub fn new(function: StringGenFunction, char_set: Vec<char>) -> (r: Result<StringGen, Error>)
        ensures
            match r {
                Ok(g) => g.function == function && g.char_set@ == char_set@ && g.wf(),
                Err(e) => (char_set@.len() == 0 || !all_ascii(char_set@) || !no_repeats(char_set@))
                    && e == Error::InvalidArgument,
            },
    {
        if char_set.len() == 0 {
            return Err(Error::InvalidArgument);
        }
        let mut i: usize = 0;
        while i < char_set.len()
            invariant
                i <= char_set@.len(),
                forall|t: int| 0 <= t < i ==> (#[trigger] char_set@[t]) as u32 <= 127,
                forall|t: int, u: int| 0 <= t < u < i ==> char_set@[t] != char_set@[u],
            decreases char_set@.len() - i,
        {
            if char_set[i] as u32 > 127 {
                return Err(Error::InvalidArgument);
            }
            let mut j: usize = 0;
            while j < i
                invariant
                    j <= i < char_set@.len(),
                    forall|t: int| 0 <= t < j ==> char_set@[t] != char_set@[i as int],
                decreases i - j,
            {
                if char_set[j] == char_set[i] {
                    return Err(Error::InvalidArgument);
                }
                j = j + 1;
            }
            i = i + 1;
        }
        Ok(StringGen { function, char_set })
    }

    /// Generates the characters of a random string of length `n` over
    /// the character set.
    fn create_random_chars(&self, n: usize) -> (r: Vec<char>)
        requires
            self.char_set@.len() >= 1,
            n >= 1,
        ensures
            r@.len() == n,
            forall|i: int| 0 <= i < n ==> self.char_set@.contains(#[trigger] r@[i]),
            self.function.method == GenMethod::PeriodicTail ==> exists|q: int|
                0 <= q < n && #[trigger] periodic_tail(r@, q),
            self.function.method == GenMethod::CyclicChars ==> forall|i: int|
                0 <= i < n ==> r@[i] == cyclic_char(self.char_set@, n as int, i),
    {
        let m = self.char_set.len();
        let mut chars: Vec<char> = Vec::new();
        match self.function.method {
            GenMethod::RandomChars => {
                let mut i: usize = 0;
                while i < n
                    invariant
                        m == self.char_set@.len(),
                        m >= 1,
                        chars@.len() == i,
                        i <= n,
                        forall|t: int| 0 <= t < i ==> self.char_set@.contains(#[trigger] chars@[t]),
                    decreases n - i,
                {
                    let idx = rand_below(m as u64) as usize;
                    let c = self.char_set[idx];
                    chars.push(c);
                    i = i + 1;
                }
            },
            GenMethod::PeriodicTail => {
                let q = rand_below(n as u64) as usize;
                let mut i: usize = 0;
                while i < q
                    invariant
                        m == self.char_set@.len(),
                        m >= 1,
                        q < n,
                        chars@.len() == i,
                        i <= q,
                        forall|t: int| 0 <= t < i ==> self.char_set@.contains(#[trigger] chars@[t]),
                    decreases q - i,
                {
                    let idx = rand_below(m as u64) as usize;
                    let c = self.char_set[idx];
                    chars.push(c);
                    i = i + 1;
                }
                while i < n
                    invariant
                        m == self.char_set@.len(),
                        m >= 1,
                        q < n,
                        chars@.len() == i,
                        q <= i <= n,
                        forall|t: int| 0 <= t < i ==> self.char_set@.contains(#[trigger] chars@[t]),
                        forall|t: int|
                            (if q == 0 {
                                1int
                            } else {
                                q as int
                            }) <= t < i ==> #[trigger] chars@[t] == chars@[(t - 1) % (q as int
                                + 1)],
                    decreases n - i,
                {
                    if i == 0 {
                        let idx = rand_below(m as u64) as usize;
                        let c = self.char_set[idx];
                        chars.push(c);
                    } else {
                        proof {
                            lemma_mod_decreases((i - 1) as nat, (q + 1) as nat);
                        }
                        let c = chars[(i - 1) % (q + 1)];
                        chars.push(c);
                    }
                    i = i + 1;
                }
                proof {
                    assert(periodic_tail(chars@, q as int));
                }
            },
            GenMethod::CyclicChars => {
                let mut last: char = self.char_set[0];
                let mut i: usize = 0;
                while i < n - 1
                    invariant
                        m == self.char_set@.len(),
                        m >= 1,
                        n >= 1,
                        chars@.len() == i,
                        i <= n - 1,
                        forall|t: int|
                            0 <= t < i ==> #[trigger] chars@[t] == self.char_set@[t % m as int],
                        last == if i == 0 {
                            self.char_set@[0]
                        } else {
                            self.char_set@[(i - 1) % m as int]
                        },
                    decreases n - 1 - i,
                {
                    let c = self.char_set[i % m];
                    chars.push(c);
                    last = c;
                    i = i + 1;
                }
                chars.push(last);
                proof {
                    assert forall|t: int| 0 <= t < n implies chars@[t] == cyclic_char(
                        self.char_set@,
                        n as int,
                        t,
                    ) by {}
                    assert forall|t: int| 0 <= t < n implies self.char_set@.contains(
                        #[trigger] chars@[t],
                    ) by {
                        assert(chars@[t] == self.char_set@[
                            if t < n - 1 {
                                t % m as int
                            } else if n == 1 {
                                0int
                            } else {
                                (n - 2) % m as int
                            }
                        ]);
                    }
                }
            },
        }
        chars
    }

    /// Creates a random string of length `n` using the character set of
    /// the generator: every character is drawn from the set.
    pub fn create_random_string(&self, n: usize) -> (r: String)
        requires
            self.char_set@.len() >= 1,
            n >= 1,
        ensures
            r@.len() == n,
            forall|i: int| 0 <= i < n ==> self.char_set@.contains(#[trigger] r@[i]),
            self.function.method == GenMethod::PeriodicTail ==> exists|q: int|
                0 <= q < n && #[trigger] periodic_tail(r@, q),
            self.function.method == GenMethod::CyclicChars ==> forall|i: int|
                0 <= i < n ==> r@[i] == cyclic_char(self.char_set@, n as int, i),
    {
        let chars = self.create_random_chars(n);
        let mut s = String::new();
        let mut i: usize = 0;
        while i < chars.len()
            invariant
                i <= chars@.len(),
                s@ == chars@.subrange(0, i as int),
            decreases chars@.len() - i,
        {
            s.push(chars[i]);
            proof {
                assert(chars@.subrange(0, i as int).push(chars@[i as int]) =~= chars@.subrange(
                    0,
                    i as int + 1,
                ));
            }
            i = i + 1;
        }
        proof {
            assert(chars@.subrange(0, chars@.len() as int) =~= chars@);
        }
        s
    }
}

/// A generated text: the byte-string payload handed to the measured
/// algorithms.
#[derive(Clone)]
pub struct TextInput {
    /// The text, as bytes.
    pub text: Vec<u8>,
}

impl Input for TextInput {
    type Builder = StringGen;

    open spec fn size_spec(&self) -> usize {
        self.text@.len() as usize
    }

    fn get_size(&self) -> (r: usize) {
        self.text.len()
    }

    fn generate_input(size: usize, builder: &StringGen) -> Self {
        if size == 0 || builder.char_set.len() == 0 {
            return TextInput { text: Vec::new() };
        }
        let chars = builder.create_random_chars(size);
        let mut text: Vec<u8> = Vec::new();
        let mut j: usize = 0;
        while j < chars.len()
            decreases chars@.len() - j,
        {
            let c = chars[j];
            let code = c as u32;
            text.push(if code <= 255 { code as u8 } else { 0u8 });
            j = j + 1;
        }
        TextInput { text }
    }
}

} // verus!
