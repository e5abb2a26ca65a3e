//! The record store: the storage-layer contract the service relies on,
//! held as an in-memory table. Records are kept in ascending identifier
//! order and titles are unique; the four operations mirror the four
//! statements the service issues (page-bounded select, insert returning
//! the row, select by identifier, delete by identifier).
use crate::todo::Todo;
use vstd::prelude::*;

verus! {

/// Identifiers are strictly ascending, hence unique.
pub open spec fn ids_sorted(s: Seq<Todo>) -> bool {
    forall|i: int, j: int| 0 <= i < j < s.len() ==> s[i].id < s[j].id
}

/// No two records share a title.
pub open spec fn titles_unique(s: Seq<Todo>) -> bool {
    forall|i: int, j: int| 0 <= i < j < s.len() ==> s[i].title@ != s[j].title@
}

/// Some record carries the identifier `id`.
pub open spec fn has_id(s: Seq<Todo>, id: u128) -> bool {
    exists|i: int| 0 <= i < s.len() && s[i].id == id
}

/// Some record carries the title `t`.
pub open spec fn has_title(s: Seq<Todo>, t: Seq<char>) -> bool {
    exists|i: int| 0 <= i < s.len() && s[i].title@ == t
}

/// The position of the record carrying `id`.
pub open spec fn idx_of(s: Seq<Todo>, id: u128) -> int {
    choose|i: int| 0 <= i < s.len() && s[i].id == id
}

/// The record carrying `id`.
pub open spec fn record_of(s: Seq<Todo>, id: u128) -> Todo {
    s[idx_of(s, id)]
}

/// The page of `s` that starts at `offset` and holds at most `limit`
/// records, both bounds clipped to the table.
pub open spec fn page_of(s: Seq<Todo>, offset: int, limit: int) -> Seq<Todo> {
    let lo = if offset <= s.len() {
        offset
    } else {
        s.len() as int
    };
    let hi = if offset + limit <= s.len() {
        offset + limit
    } else {
        s.len() as int
    };
    if 0 <= lo && lo <= hi {
        s.subrange(lo, hi)
    } else {
        Seq::empty()
    }
}

/// `post` is `pre` with `t` placed at some position.
pub open spec fn placed(pre: Seq<Todo>, post: Seq<Todo>, t: Todo) -> bool {
    exists|p: int| 0 <= p <= pre.len() && post == pre.insert(p, t)
}

/// In a table with sorted identifiers, an identifier occurs at one
/// position only.
pub proof fn lemma_id_position_unique(s: Seq<Todo>, id: u128)
    requires
        ids_sorted(s),
        has_id(s, id),
    ensures
        0 <= idx_of(s, id) < s.len(),
        s[idx_of(s, id)].id == id,
        forall|i: int| 0 <= i < s.len() && s[i].id == id ==> i == idx_of(s, id),
{
    let w = idx_of(s, id);
    assert(0 <= w < s.len() && s[w].id == id);
}

pub struct TodoStore {
    todos: Vec<Todo>,
}

impl View for TodoStore {
    type V = Seq<Todo>;

    closed spec fn view(&self) -> Seq<Todo> {
        self.todos@
    }
}

impl TodoStore {
    /// The table invariant: ascending identifiers, unique titles.
    pub open spec fn wf(&self) -> bool {
        ids_sorted(self@) && titles_unique(self@)
    }

    /// An empty table.
    pub fn new() -> (r: TodoStore)
        ensures
            r.wf(),
            r@ == Seq::<Todo>::empty(),
    {
        TodoStore { todos: Vec::new() }
    }

    /// The number of stored records.
    pub fn count(&self) -> (n: usize)
        ensures
            n == self@.len(),
    {
        self.todos.len()
    }

    /// The select bounded by `limit` and `offset`: records from position
    /// `offset` on, at most `limit` of them, in table order.
    pub fn list(&self, offset: usize, limit: usize) -> (r: Vec<Todo>)
        ensures
            r@ == page_of(self@, offset as int, limit as int),
    {
        let n = self.todos.len();
        let lo = if offset <= n {
            offset
        } else {
            n
        };
        let hi = if n - lo < limit {
            n
        } else {
            lo + limit
        };
        let mut r: Vec<Todo> = Vec::new();
        let mut k = lo;
        while k < hi
            invariant
                lo <= k <= hi <= self@.len(),
                r@ == self@.subrange(lo as int, k as int),
            decreases hi - k,
        {
            r.push(self.todos[k].duplicate());
            proof {
                assert(r@ =~= self@.subrange(lo as int, k + 1 as int));
            }
            k = k + 1;
        }
        proof {
            assert(r@ =~= page_of(self@, offset as int, limit as int));
        }
        r
    }

    /// The select by identifier: the record carrying `id`, if any.
    pub fn get(&self, id: u128) -> (r: Option<Todo>)
        requires
            self.wf(),
        ensures
            match r {
                Some(t) => has_id(self@, id) && t == record_of(self@, id),
                None => !has_id(self@, id),
            },
    {
        let n = self.todos.len();
        let mut k: usize = 0;
        while k < n
            invariant
                self.wf(),
                n == self@.len(),
                k <= n,
                forall|i: int| 0 <= i < k ==> self@[i].id != id,
            decreases n - k,
        {
            if self.todos[k].id == id {
                proof {
                    lemma_id_position_unique(self@, id);
                }
                return Some(self.todos[k].duplicate());
            }
            k = k + 1;
        }
        None
    }

    /// The insert returning the created row. Fails exactly on a
    /// duplicate title, leaving the table unchanged; the identifier is
    /// fresh by construction (the storage layer generates it).
    pub fn insert(
        &mut self,
        id: u128,
        title: String,
        content: String,
        category: String,
        now: i64,
    ) -> (r: Option<Todo>)
        requires
            old(self).wf(),
            !has_id(old(self)@, id),
        ensures
            final(self).wf(),
            has_title(old(self)@, title@) ==> r is None && final(self)@ == old(self)@,
            !has_title(old(self)@, title@) ==> {
                &&& r is Some
                &&& (r->0 == Todo {
                    id,
                    title,
                    content,
                    category,
                    completed: false,
                    created_at: now,
                    updated_at: now,
                })
                &&& placed(old(self)@, final(self)@, r->0)
                &&& has_id(final(self)@, id)
                &&& record_of(final(self)@, id) == r->0
            },
    {
        let n = self.todos.len();
        let mut k: usize = 0;
        while k < n
            invariant
                self.wf(),
                self@ == old(self)@,
                n == self@.len(),
                k <= n,
                forall|i: int| 0 <= i < k ==> self@[i].title@ != title@,
            decreases n - k,
        {
            if self.todos[k].title == title {
                return None;
            }
            k = k + 1;
        }
        let t = Todo {
            id,
            title: title.clone(),
            content,
            category,
            completed: false,
            created_at: now,
            updated_at: now,
        };
        let mut p: usize = 0;
        while p < n && self.todos[p].id < id
            invariant
                self.wf(),
                self@ == old(self)@,
                n == self@.len(),
                p <= n,
                forall|i: int| 0 <= i < p ==> self@[i].id < id,
            decreases n - p,
        {
            p = p + 1;
        }
        let ghost pre = self@;
        proof {
            assert(!has_id(pre, id));
            assert(p < pre.len() ==> pre[p as int].id != id);
            assert(p < pre.len() ==> pre[p as int].id > id);
        }
        self.todos.insert(p, t);
        let r = self.todos[p].duplicate();
        proof {
            let post = self@;
            pre.insert_ensures(p as int, t);
            assert(forall|i: int| 0 <= i < p ==> post[i] == pre[i]);
            assert(post[p as int] == t);
            assert(forall|i: int| p < i < post.len() ==> post[i] == pre[i - 1]);
            assert(forall|i: int| p < i < post.len() ==> (#[trigger] pre[i - 1].id) > id) by {
                assert(forall|i: int| p < i < post.len() ==> (#[trigger] pre[i - 1].id)
                    >= pre[p as int].id);
            }
            assert(ids_sorted(post));
            assert(titles_unique(post));
            assert(placed(pre, post, t));
            lemma_id_position_unique(post, id);
        }
        Some(r)
    }

    /// The delete by identifier: removes the record carrying `id` and
    /// reports the number of rows affected (0 or 1).
    pub fn delete(&mut self, id: u128) -> (r: u64)
        requires
            old(self).wf(),
        ensures
            final(self).wf(),
            !has_id(old(self)@, id) ==> r == 0 && final(self)@ == old(self)@,
            has_id(old(self)@, id) ==> r == 1 && final(self)@ == old(self)@.remove(
                idx_of(old(self)@, id),
            ),
            !has_id(final(self)@, id),
            final(self)@.len() + (if r == 0 { 0int } else { 1int }) == old(self)@.len(),
    {
        let n = self.todos.len();
        let mut k: usize = 0;
        while k < n
            invariant
                self.wf(),
                self@ == old(self)@,
                n == self@.len(),
                k <= n,
                forall|i: int| 0 <= i < k ==> self@[i].id != id,
            decreases n - k,
        {
            if self.todos[k].id == id {
                let ghost pre = self@;
                proof {
                    lemma_id_position_unique(pre, id);
                }
                self.todos.remove(k);
                proof {
                    let post = self@;
                    pre.remove_ensures(k as int);
                    assert(forall|i: int| 0 <= i < k ==> post[i] == pre[i]);
                    assert(forall|i: int| k <= i < post.len() ==> post[i] == pre[i + 1]);
                    assert(ids_sorted(post));
                    assert(titles_unique(post));
                    assert(forall|i: int| 0 <= i < post.len() ==> post[i].id != id);
                }
                return 1;
            }
            k = k + 1;
        }
        0
    }
}

} // verus!
