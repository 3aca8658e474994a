//! The key that opens the client's databases, and where decrypted copies go.
use vstd::prelude::*;
use vstd::string::*;

verus! {

/// Decrypts the client's databases with a key kept in a file.
pub struct Decryptor {
    key_path: String,
}

/// `name` without any number of trailing `.db`.
pub open spec fn without_db_suffix(name: Seq<char>) -> Seq<char>
    decreases name.len(),
{
    if name.len() >= 3 && name.skip(name.len() - 3) == ".db"@ {
        without_db_suffix(name.take(name.len() - 3))
    } else {
        name
    }
}

impl Decryptor {
    pub closed spec fn key(&self) -> Seq<char> {
        self.key_path@
    }

    /// A decryptor using the key file at `key_path`.
    pub fn with_key_path(key_path: String) -> (r: Decryptor)
        ensures
            r.key() == key_path@,
    {
        Decryptor { key_path }
    }

    pub fn get_key_path(&self) -> (r: &str)
        ensures
            r@ == self.key(),
    {
        self.key_path.as_str()
    }

    /// The name of the decrypted copy of database `db_name`: its name without
    /// trailing `.db`, followed by `.clean.db`.
    pub fn output_name(db_name: &str) -> (r: String)
        ensures
            r@ == without_db_suffix(db_name@) + ".clean.db"@,
    {
        proof {
            reveal_strlit(".db");
        }
        let mut end: usize = db_name.unicode_len();
        assert(db_name@.take(end as int) =~= db_name@);
        loop
            invariant
                end <= db_name@.len(),
                without_db_suffix(db_name@.take(end as int)) == without_db_suffix(db_name@),
            ensures
                end <= db_name@.len(),
                without_db_suffix(db_name@) == db_name@.take(end as int),
            decreases end,
        {
            proof {
                reveal_strlit(".db");
            }
            let ghost t = db_name@.take(end as int);
            if end >= 3 {
                let tail = db_name.substring_char(end - 3, end);
                assert(tail@ =~= t.skip(t.len() - 3));
                if tail.unicode_len() == 3 && tail.get_char(0) == '.' && tail.get_char(1) == 'd'
                    && tail.get_char(2) == 'b' {
                    assert(t.skip(t.len() - 3) =~= ".db"@);
                    assert(t.take(t.len() - 3) =~= db_name@.take(end - 3));
                    end = end - 3;
                    continue;
                } else {
                    assert(t.skip(t.len() - 3) != ".db"@) by {
                        if t.skip(t.len() - 3) == ".db"@ {
                            assert(".db"@[0] == '.' && ".db"@[1] == 'd' && ".db"@[2] == 'b');
                            assert(tail@[0] == '.' && tail@[1] == 'd' && tail@[2] == 'b');
                        }
                    }
                }
            }
            assert(without_db_suffix(t) == t);
            break;
        }
        let mut s = String::from_str(db_name.substring_char(0, end));
        s.append(".clean.db");
        assert(s@ =~= without_db_suffix(db_name@) + ".clean.db"@);
        s
    }
}

} // verus!
