//! A configuration of windows with positions and sizes in pixels, and the
//! search for the entry that applies to a window.

use vstd::prelude::*;
use crate::error::Error;
use crate::geometry::{digits_value, is_digit};
use crate::pattern::{accepted, accepts, probe_in, probe_str};
use crate::text::{chars_of, str_eq, text_of, text_or_empty};

verus! {

/// Encapsulates the attributes for positioning and resizing windows.
#[derive(Debug, PartialEq)]
pub struct Window {
    pub title: Option<String>,
    pub process: Option<String>,
    pub x: Option<i32>,
    pub y: Option<i32>,
    pub w: Option<i32>,
    pub h: Option<i32>,
}

impl Window {
    pub fn new() -> (window: Self)
        ensures
            window.title is None,
            window.process is None,
            window.x is None,
            window.y is None,
            window.w is None,
            window.h is None,
    {
        Window { title: None, process: None, x: None, y: None, w: None, h: None }
    }
}

impl Clone for Window {
    fn clone(&self) -> (copy: Self)
        ensures
            copy == *self,
    {
        Window {
            title: self.title.clone(),
            process: self.process.clone(),
            x: self.x,
            y: self.y,
            w: self.w,
            h: self.h,
        }
    }
}

/// Provides accessor methods for fields used to search for a [Window] in a
/// [Config].
pub trait Searchable {
    /// The title to search in.
    spec fn title_text(&self) -> Seq<char>;

    /// The process name to search in.
    spec fn process_text(&self) -> Seq<char>;

    fn get_title(&self) -> (title: &str)
        ensures
            title@ == self.title_text(),
    ;

    fn get_process(&self) -> (process: &str)
        ensures
            process@ == self.process_text(),
    ;
}

impl Searchable for Window {
    open spec fn title_text(&self) -> Seq<char> {
        text_of(self.title)
    }

    open spec fn process_text(&self) -> Seq<char> {
        text_of(self.process)
    }

    fn get_title(&self) -> (title: &str) {
        text_or_empty(&self.title)
    }

    fn get_process(&self) -> (process: &str) {
        text_or_empty(&self.process)
    }
}

/// Encapsulates a set of [Window] and how to reposition and resize them.
#[derive(Debug, PartialEq)]
pub struct Config {
    /// Where the configuration was read from.
    pub path: Option<String>,
    pub windows: Vec<Window>,
}

impl Clone for Config {
    fn clone(&self) -> (copy: Self)
        ensures
            copy.path == self.path,
            copy.windows@ == self.windows@,
    {
        Config { path: self.path.clone(), windows: self.windows.clone() }
    }
}

impl Default for Config {
    fn default() -> (config: Self)
        ensures
            config.path is None,
            config.windows@.len() == 0,
    {
        Config { path: None, windows: Vec::new() }
    }
}

/// Whether the entry `entry` applies to something with the title `title` and
/// the process name `process`: every pattern that the entry has is found,
/// and it has at least one.
pub open spec fn applies(entry: Window, title: Seq<char>, process: Seq<char>) -> bool {
    accepted(probe_in(entry.title, title), probe_in(entry.process, process))
}

/// The least index `>= from` of an entry that applies, or the number of
/// entries when there is none.
pub open spec fn first_applying(
    entries: Seq<Window>,
    title: Seq<char>,
    process: Seq<char>,
    from: int,
) -> int
    decreases entries.len() - from,
{
    if from >= entries.len() {
        entries.len() as int
    } else if applies(entries[from], title, process) {
        from
    } else {
        first_applying(entries, title, process, from + 1)
    }
}

/// The names of the properties of a [Window].
pub open spec fn is_property(name: Seq<char>) -> bool {
    ||| name == "title"@
    ||| name == "process"@
    ||| name == "x"@
    ||| name == "y"@
    ||| name == "w"@
    ||| name == "h"@
}

/// The least index `>= from` that holds a dot, or `s.len()` when there is
/// none.
pub open spec fn next_dot(s: Seq<char>, from: int) -> int
    decreases s.len() - from,
{
    if from >= s.len() {
        s.len() as int
    } else if from >= 0 && s[from] == '.' {
        from
    } else {
        next_dot(s, from + 1)
    }
}

/// Every character of `s` is a decimal digit.
pub open spec fn all_digits(s: Seq<char>) -> bool {
    forall|i: int| 0 <= i < s.len() ==> is_digit(#[trigger] s[i])
}

/// A token without the plus sign that may lead it.
pub open spec fn unsigned(token: Seq<char>) -> Seq<char> {
    if token.len() > 0 && token[0] == '+' {
        token.skip(1)
    } else {
        token
    }
}

/// The index that a token denotes: decimal digits, after a plus sign or
/// none, whose number fits a `usize`.
pub open spec fn index_of(token: Seq<char>) -> Option<nat> {
    let digits = unsigned(token);
    if digits.len() > 0 && all_digits(digits) && digits_value(digits) <= usize::MAX {
        Some(digits_value(digits))
    } else {
        None
    }
}

/// What a property string denotes.
///
/// A property string has three parts, set apart by dots: the word
/// `windows`, the index of a window, and the name of a property. With other
/// than three parts, another first word or an unknown name it is an invalid
/// property; with three parts, the first word right and a second part that
/// is no index it is an invalid index.
pub open spec fn property_of(s: Seq<char>) -> Result<(nat, Seq<char>), Error> {
    let first = next_dot(s, 0);
    let second = next_dot(s, first + 1);
    let third = next_dot(s, second + 1);
    if first < s.len() && second < s.len() && third >= s.len() && s.subrange(0, first)
        == "windows"@ {
        match index_of(s.subrange(first + 1, second)) {
            Some(index) => if is_property(s.subrange(second + 1, s.len() as int)) {
                Ok((index, s.subrange(second + 1, s.len() as int)))
            } else {
                Err(Error::InvalidProperty)
            },
            None => Err(Error::InvalidIndex),
        }
    } else {
        Err(Error::InvalidProperty)
    }
}

fn find_dot(chars: &Vec<char>, from: usize) -> (at: usize)
    ensures
        at == next_dot(chars@, from as int),
        from <= at || at == chars.len(),
        at <= chars.len(),
{
    let n = chars.len();
    let mut i: usize = from;
    while i < n
        invariant
            n == chars.len(),
            from <= i,
            next_dot(chars@, from as int) == next_dot(chars@, i as int),
        decreases n - i,
    {
        if chars[i] == '.' {
            return i;
        }
        i += 1;
    }
    n
}

/// A longer string of digits denotes at least as much as its beginning.
proof fn lemma_digits_grow(s: Seq<char>, k: int)
    requires
        0 <= k <= s.len(),
    ensures
        digits_value(s.take(k)) <= digits_value(s),
    decreases s.len() - k,
{
    if k < s.len() {
        lemma_digits_grow(s, k + 1);
        let longer = s.take(k + 1);
        assert(longer.drop_last() =~= s.take(k));
    } else {
        assert(s.take(k) =~= s);
    }
}

fn read_index(chars: &Vec<char>, start: usize, end: usize) -> (index: Option<usize>)
    requires
        start <= end <= chars.len(),
    ensures
        index matches Some(n) ==> index_of(chars@.subrange(start as int, end as int)) == Some(
            n as nat,
        ),
        index is None ==> index_of(chars@.subrange(start as int, end as int)) is None,
{
    let ghost token = chars@.subrange(start as int, end as int);
    let from = if start < end && chars[start] == '+' {
        start + 1
    } else {
        start
    };
    let ghost digits = chars@.subrange(from as int, end as int);
    proof {
        if from > start {
            assert(token[0] == '+');
            assert(token.skip(1) =~= digits);
        } else {
            if token.len() > 0 {
                assert(token[0] == chars@[start as int]);
            }
            assert(token =~= digits);
        }
    }
    if from == end {
        return None;
    }
    let mut acc: u128 = 0;
    let mut i: usize = from;
    assert(digits.take(0) =~= Seq::<char>::empty());
    while i < end
        invariant
            from <= i <= end <= chars.len(),
            start <= from,
            token == chars@.subrange(start as int, end as int),
            digits == chars@.subrange(from as int, end as int),
            digits == unsigned(token),
            forall|k: int| 0 <= k < i - from ==> is_digit(#[trigger] digits[k]),
            acc == digits_value(digits.take(i - from)),
            acc <= usize::MAX,
        decreases end - i,
    {
        let c = chars[i];
        if !('0' <= c && c <= '9') {
            proof {
                let k = i - from;
                assert(digits.len() == end - from);
                assert(digits[k] == c);
                assert(0 <= k < digits.len() && !is_digit(digits[k]));
            }
            return None;
        }
        let d = (c as u32 - '0' as u32) as u128;
        proof {
            let longer = digits.take(i - from + 1);
            assert(longer.drop_last() =~= digits.take(i - from));
            assert(longer.last() == c);
        }
        let next = acc * 10 + d;
        if next > usize::MAX as u128 {
            proof {
                lemma_digits_grow(digits, i - from + 1);
            }
            return None;
        }
        acc = next;
        i += 1;
    }
    assert(digits.take(end - from) =~= digits);
    Some(acc as usize)
}

fn is_property_name(name: &str) -> (yes: bool)
    ensures
        yes == is_property(name@),
{
    str_eq(name, "title") || str_eq(name, "process") || str_eq(name, "x") || str_eq(name, "y")
        || str_eq(name, "w") || str_eq(name, "h")
}

impl Config {
    pub fn new() -> (config: Self)
        ensures
            config.path is None,
            config.windows@.len() == 0,
    {
        Config { path: None, windows: Vec::new() }
    }

    /// Finds the first entry that applies to `searchable`, and gives a copy
    /// of it.
    pub fn search<T: Searchable>(&self, searchable: &T) -> (found: Option<Window>)
        ensures
            ({
                let at = first_applying(
                    self.windows@,
                    searchable.title_text(),
                    searchable.process_text(),
                    0,
                );
                if at < self.windows@.len() {
                    found == Some(self.windows@[at])
                } else {
                    found is None
                }
            }),
    {
        let title = searchable.get_title();
        let process = searchable.get_process();
        let mut i: usize = 0;
        while i < self.windows.len()
            invariant
                i <= self.windows.len(),
                title@ == searchable.title_text(),
                process@ == searchable.process_text(),
                first_applying(self.windows@, title@, process@, 0) == first_applying(
                    self.windows@,
                    title@,
                    process@,
                    i as int,
                ),
            decreases self.windows.len() - i,
        {
            let entry = &self.windows[i];
            let by_title = probe_str(&entry.title, title);
            let by_process = probe_str(&entry.process, process);
            if accepts(by_title, by_process) {
                return Some(entry.clone());
            }
            i += 1;
        }
        None
    }

    /// Returns a tuple of the index and property string.
    ///
    /// Given `windows.0.title`, the returned value is `(0, "title")`.
    pub fn parse_property_string(the_string: &str) -> (parsed: Result<(usize, String), Error>)
        ensures
            match property_of(the_string@) {
                Ok((index, name)) => parsed matches Ok((i, n)) && i == index && n@ == name,
                Err(e) => parsed == Err::<(usize, String), Error>(e),
            },
    {
        let chars = chars_of(the_string);
        let n = chars.len();
        let first = find_dot(&chars, 0);
        if first >= n {
            return Err(Error::InvalidProperty);
        }
        let second = find_dot(&chars, first + 1);
        if second >= n {
            return Err(Error::InvalidProperty);
        }
        let third = find_dot(&chars, second + 1);
        if third < n {
            return Err(Error::InvalidProperty);
        }
        let head = the_string.substring_char(0, first);
        if !str_eq(head, "windows") {
            return Err(Error::InvalidProperty);
        }
        match read_index(&chars, first + 1, second) {
            Some(index) => {
                let name = the_string.substring_char(second + 1, n);
                if is_property_name(name) {
                    Ok((index, String::from_str(name)))
                } else {
                    Err(Error::InvalidProperty)
                }
            },
            None => Err(Error::InvalidIndex),
        }
    }

    /// The entry at `index`, to be changed; there is none at or past the
    /// number of entries.
    pub fn window_at(&mut self, index: usize) -> (window: Result<&mut Window, Error>)
        ensures
            index < old(self).windows@.len() ==> (window matches Ok(w) && *w == old(
                self,
            ).windows@[index as int] && final(self).windows@ == old(self).windows@.update(
                index as int,
                *final(w),
            ) && final(self).path == old(self).path),
            index >= old(self).windows@.len() ==> (window matches Err(e) && e
                == Error::InvalidIndex && *final(self) == *old(self)),
    {
        if index < self.windows.len() {
            Ok(&mut self.windows[index])
        } else {
            Err(Error::InvalidIndex)
        }
    }
}

/// Puts a [`Window`] together field by field. What is not set stays as in
/// a new window.
#[derive(Debug)]
pub struct WindowBuilder {
    target: Window,
}

impl Default for WindowBuilder {
    fn default() -> (builder: Self)
        ensures
            builder.built().title is None && builder.built().process is None && builder.built().x is None && builder.built().y is None && builder.built().w is None && builder.built().h is None,
    {
        WindowBuilder { target: Window::new() }
    }
}

impl WindowBuilder {
    /// What the builder holds so far.
    pub closed spec fn built(self) -> Window {
        self.target
    }

    /// Sets `title`.
    pub fn title(self, value: Option<String>) -> (builder: Self)
        ensures
            builder.built() == (Window { title: value, ..self.built() }),
    {
        let mut target = self.target;
        target.title = value;
        WindowBuilder { target }
    }

    /// Sets `process`.
    pub fn process(self, value: Option<String>) -> (builder: Self)
        ensures
            builder.built() == (Window { process: value, ..self.built() }),
    {
        let mut target = self.target;
        target.process = value;
        WindowBuilder { target }
    }

    /// Sets `x`.
    pub fn x(self, value: Option<i32>) -> (builder: Self)
        ensures
            builder.built() == (Window { x: value, ..self.built() }),
    {
        let mut target = self.target;
        target.x = value;
        WindowBuilder { target }
    }

    /// Sets `y`.
    pub fn y(self, value: Option<i32>) -> (builder: Self)
        ensures
            builder.built() == (Window { y: value, ..self.built() }),
    {
        let mut target = self.target;
        target.y = value;
        WindowBuilder { target }
    }

    /// Sets `w`.
    pub fn w(self, value: Option<i32>) -> (builder: Self)
        ensures
            builder.built() == (Window { w: value, ..self.built() }),
    {
        let mut target = self.target;
        target.w = value;
        WindowBuilder { target }
    }

    /// Sets `h`.
    pub fn h(self, value: Option<i32>) -> (builder: Self)
        ensures
            builder.built() == (Window { h: value, ..self.built() }),
    {
        let mut target = self.target;
        target.h = value;
        WindowBuilder { target }
    }

    /// Gives what was put together. It never fails.
    pub fn build(self) -> (built: Result<Window, Error>)
        ensures
            built == Ok::<Window, Error>(self.built()),
    {
        Ok(self.target)
    }
}

/// Puts a [`Config`] together field by field. What is not set stays as in
/// a new configuration.
#[derive(Debug)]
pub struct ConfigBuilder {
    target: Config,
}

impl Default for ConfigBuilder {
    fn default() -> (builder: Self)
        ensures
            builder.built().path is None && builder.built().windows@.len() == 0,
    {
        ConfigBuilder { target: Config::new() }
    }
}

impl ConfigBuilder {
    /// What the builder holds so far.
    pub closed spec fn built(self) -> Config {
        self.target
    }

    /// Sets `path`.
    pub fn path(self, value: Option<String>) -> (builder: Self)
        ensures
            builder.built() == (Config { path: value, ..self.built() }),
    {
        let mut target = self.target;
        target.path = value;
        ConfigBuilder { target }
    }

    /// Sets `windows`.
    pub fn windows(self, value: Vec<Window>) -> (builder: Self)
        ensures
            builder.built() == (Config { windows: value, ..self.built() }),
    {
        let mut target = self.target;
        target.windows = value;
        ConfigBuilder { target }
    }

    /// Gives what was put together. It never fails.
    pub fn build(self) -> (built: Result<Config, Error>)
        ensures
            built == Ok::<Config, Error>(self.built()),
    {
        Ok(self.target)
    }
}

} // verus!
