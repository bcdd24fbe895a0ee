//! What the category endpoints answer: the category tree with the number of books in
//! each category and below it, and the books of a category.

use crate::domain::book_files;
use crate::handlers::books::{book_type_spec, frontend_book_type};
use crate::scanner::types::{copy_opt, opt_view};
use crate::service::database::CategoryNode;
use crate::text::{i64_to_string, signed_decimal};
use vstd::prelude::*;

verus! {

pub struct CategoryBookResponse {
    pub id: String,
    pub path: String,
    pub title: Option<String>,
    pub kind: String,
    pub book_type: String,
    pub size: i64,
    pub mtime: i64,
    pub page_count: i64,
    pub is_favorite: bool,
    pub cover_path: Option<String>,
    pub created_at: Option<String>,
}

pub struct CategoryNodeResponse {
    pub id: i64,
    pub name: String,
    pub path: String,
    pub book_count: usize,
    pub total_book_count: usize,
    pub sub_categories: Vec<CategoryNodeResponse>,
}

/// The number of books in a category node and all nodes below it.
pub open spec fn total_count(n: CategoryNode) -> nat
    decreases n,
{
    n.book_count as nat + subtree_total(n.sub_categories@)
}

/// The number of books in a list of nodes and below them.
pub open spec fn subtree_total(s: Seq<CategoryNode>) -> nat
    decreases s,
{
    if s.len() == 0 {
        0
    } else {
        subtree_total(s.drop_last()) + total_count(s.last())
    }
}

/// `r` is the response for node `n`: the same id, name, path and count, the total
/// below it, and the responses for its sub-categories, in order.
pub open spec fn response_of(r: CategoryNodeResponse, n: CategoryNode) -> bool
    decreases n,
{
    &&& r.id == n.id
    &&& r.name@ == n.name@
    &&& r.path@ == n.path@
    &&& r.book_count == n.book_count
    &&& r.total_book_count == total_count(n)
    &&& responses_of(r.sub_categories@, n.sub_categories@)
}

/// `rs` are the responses for the nodes `ns`, one for one, in order.
pub open spec fn responses_of(rs: Seq<CategoryNodeResponse>, ns: Seq<CategoryNode>) -> bool
    decreases ns,
{
    &&& rs.len() == ns.len()
    &&& ns.len() > 0 ==> {
        &&& responses_of(rs.drop_last(), ns.drop_last())
        &&& response_of(rs.last(), ns.last())
    }
}

proof fn lemma_subtree_total_prefix(s: Seq<CategoryNode>, i: int)
    requires
        0 <= i <= s.len(),
    ensures
        subtree_total(s.subrange(0, i)) <= subtree_total(s),
    decreases s.len() - i,
{
    if i < s.len() {
        assert(s.subrange(0, i + 1).drop_last() =~= s.subrange(0, i));
        lemma_subtree_total_prefix(s, i + 1);
    } else {
        assert(s.subrange(0, i) =~= s);
    }
}

fn node_response(node: &CategoryNode) -> (r: CategoryNodeResponse)
    requires
        total_count(*node) <= usize::MAX,
    ensures
        response_of(r, *node),
    decreases node,
{
    let ghost subs = node.sub_categories@;
    let mut responses: Vec<CategoryNodeResponse> = Vec::new();
    let mut sum: usize = 0;
    let mut i: usize = 0;
    while i < node.sub_categories.len()
        invariant
            subs == node.sub_categories@,
            total_count(*node) <= usize::MAX,
            total_count(*node) == node.book_count + subtree_total(subs),
            0 <= i <= subs.len(),
            responses_of(responses@, subs.subrange(0, i as int)),
            sum == subtree_total(subs.subrange(0, i as int)),
        decreases subs.len() - i,
    {
        let ghost pre = subs.subrange(0, i as int);
        let ghost old_responses = responses@;
        proof {
            assert(subs.subrange(0, i + 1).drop_last() =~= pre);
            assert(subs.subrange(0, i + 1).last() == subs[i as int]);
            lemma_subtree_total_prefix(subs, i + 1);
            assert(decreases_to!(*node => node.sub_categories));
            assert(decreases_to!(node.sub_categories => node.sub_categories@));
            assert(decreases_to!(node.sub_categories@ => node.sub_categories@[i as int]));
        }
        let child = node_response(&node.sub_categories[i]);
        sum = sum + child.total_book_count;
        responses.push(child);
        proof {
            assert(responses@.drop_last() =~= old_responses);
        }
        i = i + 1;
    }
    assert(subs.subrange(0, i as int) =~= subs);
    CategoryNodeResponse {
        id: node.id,
        name: node.name.clone(),
        path: node.path.clone(),
        book_count: node.book_count,
        total_book_count: node.book_count + sum,
        sub_categories: responses,
    }
}

/// The response for a category node: each node with the number of books in it and in
/// all categories below it.
pub fn to_category_node_response(node: CategoryNode) -> (r: CategoryNodeResponse)
    requires
        total_count(node) <= usize::MAX,
    ensures
        response_of(r, node),
{
    node_response(&node)
}

/// A book of a category as the category endpoint shows it.
pub fn to_book_response(book: &book_files::Model) -> (r: CategoryBookResponse)
    ensures
        r.id@ == signed_decimal(book.id as int),
        r.path@ == book.path@,
        opt_view(r.title) == opt_view(book.title),
        r.kind@ == book.kind@,
        r.book_type@ == book_type_spec(book.kind@),
        r.size == book.size,
        r.mtime == book.mtime,
        r.page_count == book.page_count,
        r.is_favorite == book.is_favorite,
        opt_view(r.cover_path) == opt_view(book.cover_path),
        opt_view(r.created_at) == opt_view(book.created_at),
{
    CategoryBookResponse {
        id: i64_to_string(book.id),
        path: book.path.clone(),
        title: copy_opt(&book.title),
        kind: book.kind.clone(),
        book_type: frontend_book_type(book),
        size: book.size,
        mtime: book.mtime,
        page_count: book.page_count,
        is_favorite: book.is_favorite,
        cover_path: copy_opt(&book.cover_path),
        created_at: copy_opt(&book.created_at),
    }
}

} // verus!
