use vstd::prelude::*;
use vstd::string::StrSliceExecFns;
use crate::errors::CustomError;

verus! {

/// Finding the last occurrence of a character in a string.
pub trait StrExtensions {
    /// The characters the contract speaks about.
    spec fn chars_view(&self) -> Seq<char>;

    /// The position of the last occurrence of `c`, if `c` occurs at all.
    fn last_index_of(&self, c: char) -> (r: Option<usize>)
        ensures
            r matches Some(i) ==> i < self.chars_view().len() && self.chars_view()[i as int] == c
                && (forall|j: int|
                i < j < self.chars_view().len() ==> self.chars_view()[j] != c),
            r is None ==> (forall|j: int|
                0 <= j < self.chars_view().len() ==> self.chars_view()[j] != c),
    ;
}

impl StrExtensions for str {
    open spec fn chars_view(&self) -> Seq<char> {
        self@
    }

    fn last_index_of(&self, c: char) -> (r: Option<usize>) {
        let len = self.unicode_len();
        let mut i: usize = len;
        while i > 0
            invariant
                i <= len,
                len == self@.len(),
                forall|j: int| i <= j < self@.len() ==> self@[j] != c,
            decreases i,
        {
            i = i - 1;
            if self.get_char(i) == c {
                return Some(i);
            }
        }
        None
    }
}

/// Whether `c` occurs in `s`.
pub open spec fn contains_char(s: Seq<char>, c: char) -> bool {
    exists|i: int| 0 <= i < s.len() && #[trigger] s[i] == c
}

/// What follows the last occurrence of `c` in `s`: empty when `s` ends in
/// `c`, all of `s` when `c` does not occur.
pub open spec fn after_last(s: Seq<char>, c: char) -> Seq<char>
    decreases s.len(),
{
    if s.len() == 0 {
        s
    } else if s.last() == c {
        Seq::<char>::empty()
    } else {
        after_last(s.drop_last(), c).push(s.last())
    }
}

/// What precedes the last occurrence of `c` in `s`: empty when `c` does not
/// occur.
pub open spec fn before_last(s: Seq<char>, c: char) -> Seq<char>
    decreases s.len(),
{
    if s.len() == 0 {
        s
    } else if s.last() == c {
        s.drop_last()
    } else {
        before_last(s.drop_last(), c)
    }
}

/// At the last occurrence of `c`, `after_last` is exactly the suffix that
/// follows it.
pub proof fn lemma_after_last_at(s: Seq<char>, c: char, i: int)
    requires
        0 <= i < s.len(),
        s[i] == c,
        forall|j: int| i < j < s.len() ==> s[j] != c,
    ensures
        after_last(s, c) == s.subrange(i + 1, s.len() as int),
    decreases s.len(),
{
    if i == s.len() - 1 {
        assert(s.subrange(i + 1, s.len() as int) =~= Seq::<char>::empty());
    } else {
        let shorter = s.drop_last();
        assert(forall|j: int| i < j < shorter.len() ==> shorter[j] == s[j]);
        lemma_after_last_at(shorter, c, i);
        assert(s.subrange(i + 1, s.len() as int) =~= shorter.subrange(
            i + 1,
            shorter.len() as int,
        ).push(s.last()));
    }
}

/// When `c` does not occur, `after_last` is the whole string.
pub proof fn lemma_after_last_absent(s: Seq<char>, c: char)
    requires
        forall|j: int| 0 <= j < s.len() ==> s[j] != c,
    ensures
        after_last(s, c) == s,
    decreases s.len(),
{
    if s.len() == 0 {
    } else {
        let shorter = s.drop_last();
        assert(forall|j: int| 0 <= j < shorter.len() ==> shorter[j] == s[j]);
        lemma_after_last_absent(shorter, c);
        assert(shorter.push(s.last()) =~= s);
    }
}

/// At the last occurrence of `c`, `before_last` is exactly the prefix before
/// it.
pub proof fn lemma_before_last_at(s: Seq<char>, c: char, i: int)
    requires
        0 <= i < s.len(),
        s[i] == c,
        forall|j: int| i < j < s.len() ==> s[j] != c,
    ensures
        before_last(s, c) == s.subrange(0, i),
    decreases s.len(),
{
    if i == s.len() - 1 {
        assert(s.drop_last() =~= s.subrange(0, i));
    } else {
        let shorter = s.drop_last();
        assert(forall|j: int| i < j < shorter.len() ==> shorter[j] == s[j]);
        lemma_before_last_at(shorter, c, i);
        assert(shorter.subrange(0, i) =~= s.subrange(0, i));
    }
}

/// The text with trailing separators removed.
pub open spec fn strip_trailing_seps(s: Seq<char>) -> Seq<char>
    decreases s.len(),
{
    if s.len() > 0 && s.last() == '/' {
        strip_trailing_seps(s.drop_last())
    } else {
        s
    }
}

/// The text with trailing separators and trailing "." segments removed: what
/// remains ends in a path component, or is empty.
pub open spec fn trim_tail(s: Seq<char>) -> Seq<char>
    decreases s.len(),
{
    if s.len() == 0 {
        s
    } else if s.last() == '/' {
        trim_tail(s.drop_last())
    } else if s.last() == '.' && (s.len() == 1 || s[s.len() - 2] == '/') {
        trim_tail(s.drop_last())
    } else {
        s
    }
}

/// The last component of the path, if it has one: the last maximal run of
/// non-separator characters, where trailing separators and "." segments name
/// no component.
pub open spec fn last_component(s: Seq<char>) -> Option<Seq<char>> {
    let t = trim_tail(s);
    if t.len() == 0 {
        None
    } else {
        Some(after_last(t, '/'))
    }
}

/// The file a path names: its last component, unless that component is "..",
/// which names a parent, not a file.
pub open spec fn file_name_of(s: Seq<char>) -> Option<Seq<char>> {
    match last_component(s) {
        Some(name) => if name == seq!['.', '.'] {
            None
        } else {
            Some(name)
        },
        None => None,
    }
}

/// The path with its last component removed: the text before the component
/// with its trailing separators stripped (a bare run of separators is the
/// root '/'). A path with no component is kept unchanged when it is a root,
/// and emptied when it is relative.
pub open spec fn directory_part(s: Seq<char>) -> Seq<char> {
    let t = trim_tail(s);
    if t.len() == 0 {
        if s.len() > 0 && s[0] == '/' {
            s
        } else {
            Seq::<char>::empty()
        }
    } else {
        let name = after_last(t, '/');
        let head = t.subrange(0, t.len() - name.len());
        let stripped = strip_trailing_seps(head);
        if stripped.len() == 0 && head.len() > 0 {
            seq!['/']
        } else {
            stripped
        }
    }
}

/// Where the text ends once trailing separators and "." segments are dropped.
fn trimmed_end(p: &str, end: usize) -> (r: usize)
    requires
        end <= p@.len(),
    ensures
        r <= end,
        p@.subrange(0, r as int) == trim_tail(p@.subrange(0, end as int)),
        r > 0 ==> p@[r - 1] != '/',
    decreases end,
{
    if end == 0 {
        proof {
            assert(p@.subrange(0, 0) =~= trim_tail(p@.subrange(0, 0)));
        }
        return 0;
    }
    let c = p.get_char(end - 1);
    let lone_dot = c == '.' && (end == 1 || p.get_char(end - 2) == '/');
    if c == '/' || lone_dot {
        proof {
            assert(p@.subrange(0, end as int).drop_last() =~= p@.subrange(0, end - 1));
        }
        trimmed_end(p, end - 1)
    } else {
        proof {
            assert(trim_tail(p@.subrange(0, end as int)) == p@.subrange(0, end as int));
        }
        end
    }
}

/// The start of the maximal run of non-separator characters ending at `end`.
fn run_start(p: &str, end: usize) -> (r: usize)
    requires
        0 < end <= p@.len(),
        p@[end - 1] != '/',
    ensures
        r < end,
        forall|j: int| r <= j < end ==> p@[j] != '/',
        r > 0 ==> p@[r - 1] == '/',
    decreases end,
{
    if end == 1 {
        0
    } else if p.get_char(end - 2) == '/' {
        end - 1
    } else {
        run_start(p, end - 1)
    }
}

/// Where the text ends once trailing separators alone are dropped.
fn stripped_end(p: &str, end: usize) -> (r: usize)
    requires
        end <= p@.len(),
    ensures
        r <= end,
        p@.subrange(0, r as int) == strip_trailing_seps(p@.subrange(0, end as int)),
    decreases end,
{
    if end == 0 {
        proof {
            assert(p@.subrange(0, 0) =~= strip_trailing_seps(p@.subrange(0, 0)));
        }
        0
    } else if p.get_char(end - 1) == '/' {
        proof {
            assert(p@.subrange(0, end as int).drop_last() =~= p@.subrange(0, end - 1));
        }
        stripped_end(p, end - 1)
    } else {
        end
    }
}

/// The file name the path carries, as `file_name_of` has it.
fn file_name_component(p: &str) -> (r: Option<String>)
    ensures
        r matches Some(n) ==> (file_name_of(p@) matches Some(m) && n@ == m),
        r is None <==> file_name_of(p@) is None,
{
    let len = p.unicode_len();
    let t_end = trimmed_end(p, len);
    if t_end == 0 {
        proof {
            assert(p@.subrange(0, len as int) =~= p@);
            assert(p@.subrange(0, 0) =~= Seq::<char>::empty());
        }
        return None;
    }
    let start = run_start(p, t_end);
    proof {
        let t = trim_tail(p@);
        assert(p@.subrange(0, len as int) =~= p@);
        assert(t == p@.subrange(0, t_end as int));
        if start > 0 {
            lemma_after_last_at(t, '/', start - 1);
        } else {
            lemma_after_last_absent(t, '/');
        }
        assert(t.subrange(start as int, t_end as int) =~= p@.subrange(
            start as int,
            t_end as int,
        ));
        if start == 0 {
            assert(t.subrange(0, t_end as int) =~= t);
        }
    }
    let name = p.substring_char(start, t_end);
    let dots = name.unicode_len() == 2 && name.get_char(0) == '.' && name.get_char(1) == '.';
    proof {
        let two_dots = seq!['.', '.'];
        assert(two_dots.len() == 2 && two_dots[0] == '.' && two_dots[1] == '.');
        if !dots && name@.len() == 2 && name@[0] == '.' && name@[1] == '.' {
            assert(false);
        }
        if dots {
            assert(name@ =~= two_dots);
        }
    }
    if dots {
        None
    } else {
        Some(name.to_owned())
    }
}

/// The path operations the program reads paths with. A path is modeled as the
/// text of its characters: a component is a maximal nonempty run of
/// non-separator characters other than ".", trailing separators name no
/// component, ".." is a component but names no file, and a path of
/// separators alone is a root. The filesystem itself is the caller's
/// business.
pub trait PathExtensions {
    /// The path's characters, which the contracts speak about.
    spec fn path_view(&self) -> Seq<char>;

    /// The path itself, as an owned string.
    fn get_as_string(&self) -> (r: Result<String, CustomError>)
        ensures
            r matches Ok(s) && s@ == self.path_view(),
    ;

    /// The characters after the last '.' of the file name; a name with no
    /// '.', or only a leading one, has no extension.
    fn extension_as_string(&self) -> (r: Result<String, CustomError>)
        ensures
            ({
                let name_opt = file_name_of(self.path_view());
                &&& name_opt is None ==> r is Err
                &&& name_opt matches Some(name) ==> (if contains_char(name, '.') && before_last(
                    name,
                    '.',
                ).len() > 0 {
                    r matches Ok(ext) && ext@ == after_last(name, '.')
                } else {
                    r is Err
                })
            }),
    ;

    /// The file name without its extension.
    fn file_stem_as_string(&self) -> (r: Result<String, CustomError>)
        ensures
            ({
                let name_opt = file_name_of(self.path_view());
                &&& name_opt is None ==> r is Err
                &&& name_opt matches Some(name) ==> (r matches Ok(stem) && stem@ == (
                if contains_char(name, '.') && before_last(name, '.').len() > 0 {
                    before_last(name, '.')
                } else {
                    name
                }))
            }),
    ;

    /// The file the path names: its last component, ignoring trailing
    /// separators; a root path, or one ending in "..", names no file.
    fn file_name_as_string(&self) -> (r: Result<String, CustomError>)
        ensures
            file_name_of(self.path_view()) matches Some(name) ==> (r matches Ok(n) && n@
                == name),
            file_name_of(self.path_view()) is None ==> r is Err,
    ;

    /// The directory part, as a string: the path with its last component
    /// removed; a path with no removable component is kept when it is a root
    /// and emptied when it is relative.
    fn get_directory_as_string(&self) -> (r: Result<String, CustomError>)
        ensures
            r matches Ok(dir) && dir@ == directory_part(self.path_view()),
    ;

    /// The directory part: the path with its last component removed.
    fn get_directory(&self) -> (r: String)
        ensures
            r@ == directory_part(self.path_view()),
    ;
}

impl PathExtensions for str {
    open spec fn path_view(&self) -> Seq<char> {
        self@
    }

    fn get_as_string(&self) -> (r: Result<String, CustomError>) {
        Ok(self.to_owned())
    }

    fn extension_as_string(&self) -> (r: Result<String, CustomError>) {
        proof {
            assert(self.path_view() == self@);
        }
        match file_name_component(self) {
            None => Err(CustomError::from_message("The file does not have an extension")),
            Some(name) => {
                let name_str = name.as_str();
                proof {
                    assert(name_str.chars_view() == name_str@);
                }
                let len = name_str.unicode_len();
                match name_str.last_index_of('.') {
                    Some(k) => {
                        if k > 0 {
                            proof {
                                lemma_after_last_at(name_str@, '.', k as int);
                                lemma_before_last_at(name_str@, '.', k as int);
                            }
                            Ok(name_str.substring_char(k + 1, len).to_owned())
                        } else {
                            proof {
                                lemma_before_last_at(name_str@, '.', k as int);
                            }
                            Err(CustomError::from_message("The file does not have an extension"))
                        }
                    },
                    None => Err(CustomError::from_message("The file does not have an extension")),
                }
            },
        }
    }

    fn file_stem_as_string(&self) -> (r: Result<String, CustomError>) {
        proof {
            assert(self.path_view() == self@);
        }
        match file_name_component(self) {
            None => Err(CustomError::from_message("The file does not have a `file_stem`.")),
            Some(name) => {
                let name_str = name.as_str();
                proof {
                    assert(name_str.chars_view() == name_str@);
                }
                match name_str.last_index_of('.') {
                    Some(k) => {
                        if k > 0 {
                            proof {
                                lemma_before_last_at(name_str@, '.', k as int);
                            }
                            Ok(name_str.substring_char(0, k).to_owned())
                        } else {
                            proof {
                                lemma_before_last_at(name_str@, '.', k as int);
                            }
                            Ok(name)
                        }
                    },
                    None => Ok(name),
                }
            },
        }
    }

    fn file_name_as_string(&self) -> (r: Result<String, CustomError>) {
        proof {
            assert(self.path_view() == self@);
        }
        match file_name_component(self) {
            Some(name) => Ok(name),
            None => Err(CustomError::from_message("The file does not have a `file_stem`.")),
        }
    }

    fn get_directory_as_string(&self) -> (r: Result<String, CustomError>) {
        Ok(PathExtensions::get_directory(self))
    }

    fn get_directory(&self) -> (r: String) {
        proof {
            assert(self.path_view() == self@);
        }
        let len = self.unicode_len();
        let t_end = trimmed_end(self, len);
        proof {
            assert(self@.subrange(0, len as int) =~= self@);
        }
        if t_end == 0 {
            if len > 0 && self.get_char(0) == '/' {
                self.to_owned()
            } else {
                String::new()
            }
        } else {
            let start = run_start(self, t_end);
            proof {
                let t = trim_tail(self@);
                assert(t == self@.subrange(0, t_end as int));
                if start > 0 {
                    lemma_after_last_at(t, '/', start - 1);
                } else {
                    lemma_after_last_absent(t, '/');
                    assert(t.subrange(0, t_end as int) =~= t);
                }
                assert(t.subrange(start as int, t_end as int) =~= self@.subrange(
                    start as int,
                    t_end as int,
                ));
                assert(t.subrange(0, t.len() - after_last(t, '/').len()) =~= self@.subrange(
                    0,
                    start as int,
                ));
            }
            let head_end = stripped_end(self, start);
            if head_end == 0 {
                if start > 0 {
                    let root = "/".to_owned();
                    proof {
                        reveal_strlit("/");
                        assert(root@ =~= seq!['/']);
                    }
                    root
                } else {
                    String::new()
                }
            } else {
                self.substring_char(0, head_end).to_owned()
            }
        }
    }
}

/// Collapsing nested optional values, as many levels deep as they were built.
pub trait OptionFlatten<T>: Sized {
    /// The single-level optional value the nesting collapses to.
    spec fn flattened(self) -> Option<T>;

    /// Collapses the nesting.
    fn flatten(self) -> (r: Option<T>)
        ensures
            r == self.flattened(),
    ;
}

impl<T> OptionFlatten<T> for Option<Option<T>> {
    open spec fn flattened(self) -> Option<T> {
        match self {
            None => None,
            Some(v) => v,
        }
    }

    fn flatten(self) -> (r: Option<T>) {
        match self {
            None => None,
            Some(v) => v,
        }
    }
}

impl<T> OptionFlatten<T> for Option<Option<Option<T>>> {
    open spec fn flattened(self) -> Option<T> {
        match self {
            None => None,
            Some(v) => v.flattened(),
        }
    }

    fn flatten(self) -> (r: Option<T>) {
        match self {
            None => None,
            Some(v) => OptionFlatten::flatten(v),
        }
    }
}

impl<T> OptionFlatten<T> for Option<Option<Option<Option<T>>>> {
    open spec fn flattened(self) -> Option<T> {
        match self {
            None => None,
            Some(v) => v.flattened(),
        }
    }

    fn flatten(self) -> (r: Option<T>) {
        match self {
            None => None,
            Some(v) => OptionFlatten::flatten(v),
        }
    }
}

impl<T> OptionFlatten<T> for Option<Option<Option<Option<Option<T>>>>> {
    open spec fn flattened(self) -> Option<T> {
        match self {
            None => None,
            Some(v) => v.flattened(),
        }
    }

    fn flatten(self) -> (r: Option<T>) {
        match self {
            None => None,
            Some(v) => OptionFlatten::flatten(v),
        }
    }
}

/// Mapping over an optional value without consuming it.
pub trait OptionBorrow<T> {
    /// The optional value the contracts speak about.
    spec fn inner_option(&self) -> Option<T>;

    /// Applies `f` to the held value, if one is held.
    fn map<U, F: FnOnce(&T) -> U>(&self, f: F) -> (r: Option<U>)
        requires
            self.inner_option() matches Some(x) ==> call_requires(f, (&x,)),
        ensures
            self.inner_option() is None <==> r is None,
            self.inner_option() matches Some(x) ==> (r matches Some(y) && call_ensures(
                f,
                (&x,),
                y,
            )),
    ;

    /// Applies the fallible `f` to the held value, if one is held, and passes
    /// its failure on.
    fn map_result<U, F: FnOnce(&T) -> Result<U, CustomError>>(&self, f: F) -> (r: Result<
        Option<U>,
        CustomError,
    >)
        requires
            self.inner_option() matches Some(x) ==> call_requires(f, (&x,)),
        ensures
            self.inner_option() is None ==> (r matches Ok(o) && o is None),
            self.inner_option() matches Some(x) ==> (match r {
                Ok(o) => o matches Some(y) && call_ensures(f, (&x,), Ok(y)),
                Err(e) => call_ensures(f, (&x,), Err(e)),
            }),
    ;
}

impl<T> OptionBorrow<T> for Option<T> {
    open spec fn inner_option(&self) -> Option<T> {
        *self
    }

    fn map<U, F: FnOnce(&T) -> U>(&self, f: F) -> (r: Option<U>) {
        match self {
            Some(x) => Some(f(x)),
            None => None,
        }
    }

    fn map_result<U, F: FnOnce(&T) -> Result<U, CustomError>>(&self, f: F) -> (r: Result<
        Option<U>,
        CustomError,
    >) {
        match self {
            Some(x) => match f(x) {
                Ok(y) => Ok(Some(y)),
                Err(e) => Err(e),
            },
            None => Ok(None),
        }
    }
}

/// The bulk operations the loops use on collected sequences of items.
/// Ordering or grouping by an arbitrary key is deliberately not offered: an
/// order produced by a derived comparison, or a map keyed by a derived hash,
/// carries no contract Verus can check, so callers sort or group by plain
/// integers themselves where they need to.
pub trait IteratorExtensions<T>: Sized {
    /// The items the contracts speak about, in order.
    spec fn items(self) -> Seq<T>;

    /// The first item satisfying `f`, consuming the collection.
    fn first<F: Fn(&T) -> bool>(self, f: F) -> (r: Option<T>)
        requires
            forall|i: int|
                0 <= i < self.items().len() ==> #[trigger] call_requires(f, (&self.items()[i],)),
        ensures
            r matches Some(x) ==> (exists|i: int|
                0 <= i < self.items().len() && x == self.items()[i] && #[trigger] call_ensures(
                    f,
                    (&self.items()[i],),
                    true,
                ) && (forall|j: int|
                0 <= j < i ==> #[trigger] call_ensures(f, (&self.items()[j],), false))),
            r is None ==> (forall|i: int|
                0 <= i < self.items().len() ==> #[trigger] call_ensures(
                    f,
                    (&self.items()[i],),
                    false,
                )),
    ;

    /// Whether the fallible predicate `f` accepts some item; the first failure
    /// is passed on.
    fn any_result<F: Fn(&T) -> Result<bool, CustomError>>(self, f: F) -> (r: Result<
        bool,
        CustomError,
    >)
        requires
            forall|i: int|
                0 <= i < self.items().len() ==> #[trigger] call_requires(f, (&self.items()[i],)),
        ensures
            r == Ok::<bool, CustomError>(true) ==> (exists|i: int|
                0 <= i < self.items().len() && #[trigger] call_ensures(
                    f,
                    (&self.items()[i],),
                    Ok(true),
                )),
            r == Ok::<bool, CustomError>(false) ==> (forall|i: int|
                0 <= i < self.items().len() ==> #[trigger] call_ensures(
                    f,
                    (&self.items()[i],),
                    Ok(false),
                )),
            r matches Err(e) ==> (exists|i: int|
                0 <= i < self.items().len() && #[trigger] call_ensures(
                    f,
                    (&self.items()[i],),
                    Err(e),
                )),
    ;

    /// Applies the fallible `f` to every item in order; the first failure is
    /// passed on.
    fn map_result<K, F: Fn(&T) -> Result<K, CustomError>>(self, f: F) -> (r: Result<
        Vec<K>,
        CustomError,
    >)
        requires
            forall|i: int|
                0 <= i < self.items().len() ==> #[trigger] call_requires(f, (&self.items()[i],)),
        ensures
            r matches Ok(v) ==> v@.len() == self.items().len() && (forall|i: int|
                0 <= i < self.items().len() ==> #[trigger] call_ensures(
                    f,
                    (&self.items()[i],),
                    Ok(v@[i]),
                )),
            r matches Err(e) ==> (exists|i: int|
                0 <= i < self.items().len() && #[trigger] call_ensures(
                    f,
                    (&self.items()[i],),
                    Err(e),
                )),
    ;

    /// The items as a vector, in order.
    fn collect_vec(self) -> (r: Vec<T>)
        ensures
            r@ == self.items(),
    ;
}

impl<T> IteratorExtensions<T> for Vec<T> {
    open spec fn items(self) -> Seq<T> {
        self@
    }

    fn first<F: Fn(&T) -> bool>(self, f: F) -> (r: Option<T>) {
        proof {
            assert(self.items() == self@);
        }
        let mut items = self;
        let ghost all = items@;
        let mut i: usize = 0;
        while i < items.len()
            invariant
                i <= all.len(),
                items@ == all,
                self.items() == all,
                forall|k: int|
                    0 <= k < all.len() ==> #[trigger] call_requires(f, (&all[k],)),
                forall|k: int| 0 <= k < i ==> #[trigger] call_ensures(f, (&all[k],), false),
            decreases items.len() - i,
        {
            if f(&items[i]) {
                let x = items.remove(i);
                return Some(x);
            }
            i = i + 1;
        }
        None
    }

    fn any_result<F: Fn(&T) -> Result<bool, CustomError>>(self, f: F) -> (r: Result<
        bool,
        CustomError,
    >) {
        proof {
            assert(self.items() == self@);
        }
        let mut i: usize = 0;
        while i < self.len()
            invariant
                i <= self@.len(),
                self.items() == self@,
                forall|k: int|
                    0 <= k < self@.len() ==> #[trigger] call_requires(f, (&self@[k],)),
                forall|k: int| 0 <= k < i ==> #[trigger] call_ensures(f, (&self@[k],), Ok::<
                    bool,
                    CustomError,
                >(false)),
            decreases self.len() - i,
        {
            match f(&self[i]) {
                Ok(true) => {
                    return Ok(true);
                },
                Ok(false) => {},
                Err(e) => {
                    return Err(e);
                },
            }
            i = i + 1;
        }
        Ok(false)
    }

    fn map_result<K, F: Fn(&T) -> Result<K, CustomError>>(self, f: F) -> (r: Result<
        Vec<K>,
        CustomError,
    >) {
        proof {
            assert(self.items() == self@);
        }
        let mut destination: Vec<K> = Vec::new();
        let mut i: usize = 0;
        while i < self.len()
            invariant
                i <= self@.len(),
                self.items() == self@,
                destination@.len() == i,
                forall|k: int|
                    0 <= k < self@.len() ==> #[trigger] call_requires(f, (&self@[k],)),
                forall|k: int| 0 <= k < i ==> #[trigger] call_ensures(
                    f,
                    (&self@[k],),
                    Ok(destination@[k]),
                ),
            decreases self.len() - i,
        {
            match f(&self[i]) {
                Ok(y) => {
                    destination.push(y);
                },
                Err(e) => {
                    return Err(e);
                },
            }
            i = i + 1;
        }
        Ok(destination)
    }

    fn collect_vec(self) -> (r: Vec<T>) {
        proof {
            assert(self.items() == self@);
        }
        self
    }
}

} // verus!
