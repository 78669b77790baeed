use vstd::prelude::*;
use vstd::string::*;

verus! {

/// Why an account cannot be watched.
#[derive(Debug, Clone, Copy, PartialEq, Eq, Structural)]
pub enum ConfigError {
    /// The account id does not have 17 characters.
    AccountIdLength,
    /// The account id has 17 characters, but not all of them are digits.
    AccountIdNotNumeric,
    /// No account was given.
    NoAccounts,
}

/// Number of characters of an account id.
pub const ACCOUNT_ID_LEN: usize = 17;

pub open spec fn all_digits(s: Seq<char>) -> bool {
    forall|i: int| 0 <= i < s.len() ==> '0' <= #[trigger] s[i] <= '9'
}

pub open spec fn valid_account_id(id: Seq<char>) -> bool {
    id.len() == ACCOUNT_ID_LEN && all_digits(id)
}

/// The verdict on an account id: its length is checked first, then its
/// characters.
pub open spec fn account_id_check(id: Seq<char>) -> Result<(), ConfigError> {
    if id.len() != ACCOUNT_ID_LEN {
        Err(ConfigError::AccountIdLength)
    } else if !all_digits(id) {
        Err(ConfigError::AccountIdNotNumeric)
    } else {
        Ok(())
    }
}

/// Checks that `id` is made of exactly 17 decimal digits.
pub fn validate_account_id(id: &str) -> (r: Result<(), ConfigError>)
    ensures
        r == account_id_check(id@),
        r is Ok <==> valid_account_id(id@),
{
    let n = id.unicode_len();
    if n != ACCOUNT_ID_LEN {
        return Err(ConfigError::AccountIdLength);
    }
    let mut i: usize = 0;
    while i < n
        invariant
            n == id@.len(),
            n == ACCOUNT_ID_LEN,
            i <= n,
            forall|k: int| 0 <= k < i ==> '0' <= #[trigger] id@[k] <= '9',
        decreases n - i,
    {
        let c = id.get_char(i);
        if !('0' <= c && c <= '9') {
            return Err(ConfigError::AccountIdNotNumeric);
        }
        i = i + 1;
    }
    Ok(())
}

pub open spec fn is_id_separator(c: char) -> bool {
    c == ',' || c == ' '
}

/// Scans a list of account ids from the left: the ids closed so far, and the
/// one still being read.
pub open spec fn id_scan(s: Seq<char>) -> (Seq<Seq<char>>, Seq<char>)
    decreases s.len(),
{
    if s.len() == 0 {
        (seq![], seq![])
    } else {
        let (done, open) = id_scan(s.drop_last());
        if is_id_separator(s.last()) {
            if open.len() > 0 {
                (done.push(open), seq![])
            } else {
                (done, seq![])
            }
        } else {
            (done, open.push(s.last()))
        }
    }
}

/// The ids of a list separated by commas or spaces, empty pieces left out.
pub open spec fn split_ids(s: Seq<char>) -> Seq<Seq<char>> {
    let (done, open) = id_scan(s);
    if open.len() > 0 {
        done.push(open)
    } else {
        done
    }
}

/// Splits a list of account ids at each comma and each space, dropping the
/// empty pieces.
pub fn split_user_ids(s: &str) -> (r: Vec<String>)
    ensures
        r@.map_values(|x: String| x@) == split_ids(s@),
{
    let n = s.unicode_len();
    let mut out: Vec<String> = Vec::new();
    let mut start: usize = 0;
    let mut i: usize = 0;
    assert(s@.subrange(0, 0) =~= Seq::<char>::empty());
    assert(out@.map_values(|x: String| x@) =~= Seq::<Seq<char>>::empty());
    while i < n
        invariant
            n == s@.len(),
            start <= i <= n,
            id_scan(s@.subrange(0, i as int)) == (
                out@.map_values(|x: String| x@),
                s@.subrange(start as int, i as int),
            ),
        decreases n - i,
    {
        let ghost prefix = s@.subrange(0, i + 1);
        assert(prefix.drop_last() =~= s@.subrange(0, i as int));
        let c = s.get_char(i);
        assert(prefix.last() == c);
        if c == ',' || c == ' ' {
            if start < i {
                let piece = s.substring_char(start, i).to_owned();
                let ghost before = out@;
                out.push(piece);
                assert(out@.map_values(|x: String| x@) =~= before.map_values(|x: String| x@).push(
                    s@.subrange(start as int, i as int),
                ));
            }
            start = i + 1;
            assert(s@.subrange(start as int, i + 1) =~= Seq::<char>::empty());
        } else {
            assert(s@.subrange(start as int, i + 1) =~= s@.subrange(start as int, i as int).push(c));
        }
        i = i + 1;
    }
    assert(s@.subrange(0, n as int) =~= s@);
    if start < n {
        let piece = s.substring_char(start, n).to_owned();
        let ghost before = out@;
        out.push(piece);
        assert(out@.map_values(|x: String| x@) =~= before.map_values(|x: String| x@).push(
            s@.subrange(start as int, n as int),
        ));
    }
    out
}

/// An account to watch: its remote id, the display name the remote service
/// gives it, and an optional alias chosen by the operator.
#[derive(Debug)]
pub struct User {
    pub steam_id: String,
    pub display_name: String,
    pub alias: Option<String>,
}

impl User {
    pub open spec fn wf(&self) -> bool {
        valid_account_id(self.steam_id@)
    }

    /// The name under which the account's activity is reported: the alias
    /// where there is one, else the remote display name.
    pub open spec fn label_view(&self) -> Seq<char> {
        match self.alias {
            Some(a) => a@,
            None => self.display_name@,
        }
    }

    /// Builds an account from an id that is checked here, before anything is
    /// asked of the remote service about it.
    pub fn new(steam_id: &str, display_name: String, alias: Option<&str>) -> (r: Result<
        User,
        ConfigError,
    >)
        ensures
            r is Err ==> account_id_check(steam_id@) == Err::<(), ConfigError>(r->Err_0),
            r is Ok <==> valid_account_id(steam_id@),
            r is Ok ==> {
                let u = r->Ok_0;
                &&& u.wf()
                &&& u.steam_id@ == steam_id@
                &&& u.display_name == display_name
                &&& match alias {
                    Some(a) => u.alias is Some && u.alias->Some_0@ == a@,
                    None => u.alias is None,
                }
            },
    {
        match validate_account_id(steam_id) {
            Err(e) => Err(e),
            Ok(()) => {
                let alias = match alias {
                    Some(a) => Some(a.to_owned()),
                    None => None,
                };
                Ok(User { steam_id: steam_id.to_owned(), display_name, alias })
            },
        }
    }

    /// The name under which the account's activity is reported.
    pub fn label(&self) -> (r: String)
        ensures
            r@ == self.label_view(),
    {
        match &self.alias {
            Some(a) => a.clone(),
            None => self.display_name.clone(),
        }
    }
}

} // verus!
