//! What holds of the lines that offer choices.
use super::choice::{FilePreviewChoice, PermissionChoice, PlanChoice};
use super::status::{file_options, offered, options_line, permission_options, plan_options};
use crate::text::{contains, join, occurs_at};
use vstd::prelude::*;

verus! {

/// Some labels as they are offered, with the one at `selected` in brackets.
pub open spec fn offers(labels: Seq<Seq<char>>, selected: int) -> Seq<Seq<char>> {
    Seq::new(labels.len(), |k: int| offered(labels[k], k == selected))
}

/// Where the label at `k` stands in a line of offers.
pub open spec fn label_place(labels: Seq<Seq<char>>, k: int) -> int
    decreases k,
{
    if k <= 0 {
        5
    } else {
        label_place(labels, k - 1) + labels[k - 1].len() + 4
    }
}

/// A label in brackets.
pub open spec fn bracketed(label: Seq<char>) -> Seq<char> {
    "["@ + label + "]"@
}

/// Whether a text holds no bracket.
pub open spec fn bracketless(text: Seq<char>) -> bool {
    forall|i: int| 0 <= i < text.len() ==> #[trigger] text[i] != '[' && text[i] != ']'
}

pub open spec fn all_bracketless(labels: Seq<Seq<char>>) -> bool {
    forall|k: int| 0 <= k < labels.len() ==> bracketless(#[trigger] labels[k])
}

proof fn lemma_literals()
    ensures
        "["@ =~= seq!['['],
        "]"@ =~= seq![']'],
        " "@ =~= seq![' '],
        "  "@ =~= seq![' ', ' '],
        "←/→ "@.len() == 4,
        "  Enter"@.len() == 7,
        bracketless(" "@),
        bracketless("  "@),
        bracketless("←/→ "@),
        bracketless("  Enter"@),
{
    reveal_strlit("[");
    reveal_strlit("]");
    reveal_strlit(" ");
    reveal_strlit("  ");
    reveal_strlit("←/→ ");
    reveal_strlit("  Enter");
}

proof fn lemma_bracketless_sum(a: Seq<char>, b: Seq<char>)
    requires
        bracketless(a),
        bracketless(b),
    ensures
        bracketless(a + b),
{
    assert forall|i: int| 0 <= i < (a + b).len() implies #[trigger] (a + b)[i] != '[' && (a + b)[i]
        != ']' by {
        if i < a.len() {
            assert((a + b)[i] == a[i]);
        } else {
            assert((a + b)[i] == b[i - a.len()]);
        }
    }
}

proof fn lemma_plain_offer(label: Seq<char>)
    requires
        bracketless(label),
    ensures
        bracketless(offered(label, false)),
{
    lemma_literals();
    lemma_bracketless_sum(" "@, label);
    lemma_bracketless_sum(" "@ + label, " "@);
}

/// Offers of which none is selected hold no bracket.
proof fn lemma_none_selected(labels: Seq<Seq<char>>, selected: int)
    requires
        all_bracketless(labels),
        selected < 0 || selected >= labels.len(),
    ensures
        bracketless(join(offers(labels, selected), "  "@)),
    decreases labels.len(),
{
    let all = offers(labels, selected);
    lemma_literals();
    if labels.len() > 0 {
        let front = labels.drop_last();
        let last = labels.len() - 1;
        assert(all.drop_last() =~= offers(front, selected)) by {
            assert forall|k: int| 0 <= k < front.len() implies all[k] == offered(
                front[k],
                k == selected,
            ) by {
            }
        }
        assert(all_bracketless(front)) by {
            assert forall|k: int| 0 <= k < front.len() implies bracketless(#[trigger] front[k]) by {
                assert(front[k] == labels[k]);
            }
        }
        lemma_plain_offer(labels[last]);
        if labels.len() > 1 {
            if selected == last {
                assert(false);
            }
            lemma_none_selected(front, selected);
            lemma_bracketless_sum(join(all.drop_last(), "  "@), "  "@);
            lemma_bracketless_sum(join(all.drop_last(), "  "@) + "  "@, all.last());
        }
    }
}

/// A row of offers is the selected label in brackets, with no bracket before or behind it.
proof fn lemma_split_at_selected(labels: Seq<Seq<char>>, selected: int) -> (r: (
    Seq<char>,
    Seq<char>,
))
    requires
        all_bracketless(labels),
        0 <= selected < labels.len(),
    ensures
        join(offers(labels, selected), "  "@) == r.0 + bracketed(labels[selected]) + r.1,
        bracketless(r.0),
        bracketless(r.1),
    decreases labels.len(),
{
    let all = offers(labels, selected);
    let front = labels.drop_last();
    let last = labels.len() - 1;
    let row = join(all, "  "@);
    lemma_literals();
    assert(all_bracketless(front)) by {
        assert forall|k: int| 0 <= k < front.len() implies bracketless(#[trigger] front[k]) by {
            assert(front[k] == labels[k]);
        }
    }
    assert(all.drop_last() =~= offers(front, selected)) by {
        assert forall|k: int| 0 <= k < front.len() implies all[k] == offered(
            front[k],
            k == selected,
        ) by {
        }
    }
    let before = join(offers(front, selected), "  "@);
    if selected == last {
        let head = if labels.len() == 1 {
            Seq::empty()
        } else {
            before + "  "@
        };
        if labels.len() > 1 {
            lemma_none_selected(front, selected);
            lemma_bracketless_sum(before, "  "@);
        }
        assert(row =~= head + bracketed(labels[selected]) + Seq::<char>::empty());
        (head, Seq::empty())
    } else {
        let (head, tail) = lemma_split_at_selected(front, selected);
        lemma_plain_offer(labels[last]);
        lemma_bracketless_sum(tail, "  "@);
        lemma_bracketless_sum(tail + "  "@, all.last());
        assert(front[selected] == labels[selected]);
        assert(row =~= head + bracketed(labels[selected]) + (tail + "  "@ + all.last()));
        (head, tail + "  "@ + all.last())
    }
}

/// A text with one label in brackets holds no other label in brackets.
proof fn lemma_one_in_brackets(
    head: Seq<char>,
    label: Seq<char>,
    tail: Seq<char>,
    other: Seq<char>,
)
    requires
        bracketless(head),
        bracketless(label),
        bracketless(tail),
        bracketless(other),
    ensures
        contains(head + bracketed(label) + tail, bracketed(other)) <==> label == other,
{
    let text = head + bracketed(label) + tail;
    let wanted = bracketed(other);
    lemma_literals();
    let n = head.len() as int;
    assert forall|i: int| 0 <= i < text.len() implies (text[i] == '[' <==> i == n) && (text[i] == ']'
        <==> i == n + 1 + label.len()) by {
        if i < n {
            assert(text[i] == head[i]);
        } else if i == n {
        } else if i < n + 1 + label.len() {
            assert(text[i] == label[i - n - 1]);
        } else if i == n + 1 + label.len() {
        } else {
            assert(text[i] == tail[i - n - 2 - label.len()]);
        }
    }
    if label == other {
        assert(text.subrange(n, n + wanted.len()) =~= wanted);
        assert(occurs_at(text, wanted, n));
    }
    if contains(text, wanted) {
        let at = choose|at: int| occurs_at(text, wanted, at);
        let found = text.subrange(at, at + wanted.len());
        assert(found[0] == text[at]);
        assert(found[1int + other.len()] == text[at + other.len() + 1]);
        assert(wanted[0] == '[');
        assert(wanted[1int + other.len()] == ']');
        assert(label.len() == other.len());
        assert forall|i: int| 0 <= i < label.len() implies label[i] == other[i] by {
            assert(found[i + 1] == text[at + i + 1]);
            assert(wanted[i + 1] == other[i]);
            assert(text[n + i + 1] == label[i]);
        }
        assert(label =~= other);
    }
}

/// Of the labels offered, exactly the selected one stands in brackets.
proof fn lemma_selected_is_marked(labels: Seq<Seq<char>>, selected: int, other: Seq<char>)
    requires
        all_bracketless(labels),
        0 <= selected < labels.len(),
        bracketless(other),
    ensures
        contains(options_line(offers(labels, selected)), bracketed(other)) <==> labels[selected]
            == other,
{
    let (head, tail) = lemma_split_at_selected(labels, selected);
    let line = options_line(offers(labels, selected));
    lemma_literals();
    lemma_bracketless_sum("←/→ "@, head);
    lemma_bracketless_sum(tail, "  Enter"@);
    assert(line =~= ("←/→ "@ + head) + bracketed(labels[selected]) + (tail + "  Enter"@));
    lemma_one_in_brackets("←/→ "@ + head, labels[selected], tail + "  Enter"@, other);
}

/// How long a row of offers is, and where its labels stand, whichever is selected.
proof fn lemma_places(labels: Seq<Seq<char>>, selected: int)
    requires
        labels.len() > 0,
    ensures
        join(offers(labels, selected), "  "@).len() == label_place(labels, labels.len() as int) - 7,
        forall|k: int|
            0 <= k < labels.len() ==> #[trigger] occurs_at(
                join(offers(labels, selected), "  "@),
                labels[k],
                label_place(labels, k) - 4,
            ),
    decreases labels.len(),
{
    let all = offers(labels, selected);
    let front = labels.drop_last();
    let last = labels.len() - 1;
    let row = join(all, "  "@);
    let before = join(all.drop_last(), "  "@);
    lemma_literals();
    assert(all.drop_last() =~= offers(front, selected)) by {
        assert forall|k: int| 0 <= k < front.len() implies all[k] == offered(
            front[k],
            k == selected,
        ) by {
        }
    }
    lemma_places_of_start(labels, last);
    if labels.len() == 1 {
        assert(row.subrange(1, 1int + labels[0].len()) =~= labels[0]);
    } else {
        lemma_places(front, selected);
        let at = label_place(labels, last) - 4;
        assert(row == before + "  "@ + all.last());
        assert(row.subrange(at, at + labels[last].len()) =~= labels[last]);
        assert forall|k: int| 0 <= k < labels.len() implies #[trigger] occurs_at(
            row,
            labels[k],
            label_place(labels, k) - 4,
        ) by {
            if k < last {
                assert(front[k] == labels[k]);
                lemma_places_of_start(labels, k);
                let from = label_place(labels, k) - 4;
                assert(occurs_at(before, front[k], from));
                assert(row.subrange(from, from + labels[k].len()) =~= before.subrange(
                    from,
                    from + labels[k].len(),
                ));
            }
        }
    }
}

proof fn lemma_places_of_start(labels: Seq<Seq<char>>, k: int)
    requires
        0 <= k < labels.len(),
    ensures
        label_place(labels.drop_last(), k) == label_place(labels, k),
    decreases k,
{
    if k > 0 {
        lemma_places_of_start(labels, k - 1);
    }
}

/// The labels stand at the same places of the line, whichever is selected, and the line is equally
/// long.
proof fn lemma_places_in_line(labels: Seq<Seq<char>>, selected: int)
    requires
        labels.len() > 0,
    ensures
        options_line(offers(labels, selected)).len() == label_place(labels, labels.len() as int)
            + 4,
        forall|k: int|
            0 <= k < labels.len() ==> #[trigger] occurs_at(
                options_line(offers(labels, selected)),
                labels[k],
                label_place(labels, k),
            ),
{
    let row = join(offers(labels, selected), "  "@);
    let line = options_line(offers(labels, selected));
    lemma_literals();
    lemma_places(labels, selected);
    assert forall|k: int| 0 <= k < labels.len() implies #[trigger] occurs_at(
        line,
        labels[k],
        label_place(labels, k),
    ) by {
        let at = label_place(labels, k);
        assert(occurs_at(row, labels[k], at - 4));
        assert(line.subrange(at, at + labels[k].len()) =~= row.subrange(
            at - 4,
            at - 4 + labels[k].len(),
        ));
    }
}

/// The answers to a plan.
pub open spec fn plan_labels() -> Seq<Seq<char>> {
    seq!["Approve"@, "Revise"@, "Reject"@, "Quit"@]
}

proof fn lemma_plan_labels(selected: PlanChoice)
    ensures
        all_bracketless(plan_labels()),
        plan_labels()[selected.position()] == selected.name(),
        plan_options(selected) == options_line(offers(plan_labels(), selected.position())),
{
    reveal_strlit("Approve");
    reveal_strlit("Revise");
    reveal_strlit("Reject");
    reveal_strlit("Quit");
    assert(offers(plan_labels(), selected.position()) =~= seq![
        offered("Approve"@, selected is Approve),
        offered("Revise"@, selected is Revise),
        offered("Reject"@, selected is Reject),
        offered("Quit"@, selected is Quit),
    ]);
}

/// The line that offers the answers to a plan has the selected one in brackets and no other, has
/// all of them in their order, and is as long whichever is selected.
pub proof fn law_plan_options(selected: PlanChoice, other: PlanChoice)
    ensures
        contains(plan_options(selected), bracketed(other.name())) <==> other == selected,
        occurs_at(plan_options(selected), other.name(), label_place(plan_labels(), other.position())),
        other.position() < selected.position() ==> label_place(plan_labels(), other.position())
            + other.name().len() < label_place(plan_labels(), selected.position()),
        plan_options(selected).len() == plan_options(other).len(),
{
    let labels = plan_labels();
    lemma_plan_labels(selected);
    lemma_plan_labels(other);
    assert(bracketless(labels[other.position()]));
    lemma_selected_is_marked(labels, selected.position(), other.name());
    lemma_places_in_line(labels, selected.position());
    lemma_places_in_line(labels, other.position());
    assert(occurs_at(
        plan_options(selected),
        labels[other.position()],
        label_place(labels, other.position()),
    ));
    lemma_labels_in_order(labels, other.position(), selected.position());
    if selected.name() == other.name() {
        lemma_plan_names_differ(selected, other);
    }
}

proof fn lemma_plan_names_differ(a: PlanChoice, b: PlanChoice)
    requires
        a.name() == b.name(),
    ensures
        a == b,
{
    reveal_strlit("Approve");
    reveal_strlit("Revise");
    reveal_strlit("Reject");
    reveal_strlit("Quit");
    assert("Revise"@[2] == 'v' && "Reject"@[2] == 'j');
    assert("Approve"@.len() == 7 && "Revise"@.len() == 6 && "Reject"@.len() == 6);
    assert("Quit"@.len() == 4);
}

proof fn lemma_labels_in_order(labels: Seq<Seq<char>>, a: int, b: int)
    requires
        0 <= a,
    ensures
        a < b ==> label_place(labels, a) + labels[a].len() < label_place(labels, b),
    decreases b,
{
    if a < b - 1 {
        lemma_labels_in_order(labels, a, b - 1);
    }
}

/// The answers to a file change.
pub open spec fn file_labels() -> Seq<Seq<char>> {
    seq!["Apply"@, "Reject"@, "Quit"@]
}

proof fn lemma_file_labels(selected: FilePreviewChoice)
    ensures
        all_bracketless(file_labels()),
        file_labels()[selected.position()] == selected.name(),
        file_options(selected) == options_line(offers(file_labels(), selected.position())),
{
    reveal_strlit("Apply");
    reveal_strlit("Reject");
    reveal_strlit("Quit");
    assert(offers(file_labels(), selected.position()) =~= seq![
        offered("Apply"@, selected is Apply),
        offered("Reject"@, selected is Reject),
        offered("Quit"@, selected is Quit),
    ]);
}

/// The line that offers the answers to a file change has the selected one in brackets and no
/// other, has all of them in their order, and is as long whichever is selected.
pub proof fn law_file_options(selected: FilePreviewChoice, other: FilePreviewChoice)
    ensures
        contains(file_options(selected), bracketed(other.name())) <==> other == selected,
        occurs_at(file_options(selected), other.name(), label_place(file_labels(), other.position())),
        other.position() < selected.position() ==> label_place(file_labels(), other.position())
            + other.name().len() < label_place(file_labels(), selected.position()),
        file_options(selected).len() == file_options(other).len(),
{
    let labels = file_labels();
    lemma_file_labels(selected);
    lemma_file_labels(other);
    assert(bracketless(labels[other.position()]));
    lemma_selected_is_marked(labels, selected.position(), other.name());
    lemma_places_in_line(labels, selected.position());
    lemma_places_in_line(labels, other.position());
    assert(occurs_at(
        file_options(selected),
        labels[other.position()],
        label_place(labels, other.position()),
    ));
    lemma_labels_in_order(labels, other.position(), selected.position());
    reveal_strlit("Apply");
    reveal_strlit("Reject");
    reveal_strlit("Quit");
}

/// The answers to a permission request.
pub open spec fn permission_labels() -> Seq<Seq<char>> {
    seq!["Allow once"@, "Allow session"@, "Always allow"@, "Deny"@, "Quit"@]
}

proof fn lemma_permission_labels(selected: PermissionChoice)
    ensures
        all_bracketless(permission_labels()),
        permission_labels()[selected.position()] == selected.name(),
        permission_options(selected) == options_line(
            offers(permission_labels(), selected.position()),
        ),
{
    reveal_strlit("Allow once");
    reveal_strlit("Allow session");
    reveal_strlit("Always allow");
    reveal_strlit("Deny");
    reveal_strlit("Quit");
    assert(offers(permission_labels(), selected.position()) =~= seq![
        offered("Allow once"@, selected is AllowOnce),
        offered("Allow session"@, selected is AllowSession),
        offered("Always allow"@, selected is AllowAlways),
        offered("Deny"@, selected is Deny),
        offered("Quit"@, selected is Quit),
    ]);
}

/// The line that offers the answers to a permission request has the selected one in brackets and
/// no other, has all of them in their order, and is as long whichever is selected.
pub proof fn law_permission_options(selected: PermissionChoice, other: PermissionChoice)
    ensures
        contains(permission_options(selected), bracketed(other.name())) <==> other == selected,
        occurs_at(
            permission_options(selected),
            other.name(),
            label_place(permission_labels(), other.position()),
        ),
        other.position() < selected.position() ==> label_place(
            permission_labels(),
            other.position(),
        ) + other.name().len() < label_place(permission_labels(), selected.position()),
        permission_options(selected).len() == permission_options(other).len(),
{
    let labels = permission_labels();
    lemma_permission_labels(selected);
    lemma_permission_labels(other);
    assert(bracketless(labels[other.position()]));
    lemma_selected_is_marked(labels, selected.position(), other.name());
    lemma_places_in_line(labels, selected.position());
    lemma_places_in_line(labels, other.position());
    assert(occurs_at(
        permission_options(selected),
        labels[other.position()],
        label_place(labels, other.position()),
    ));
    lemma_labels_in_order(labels, other.position(), selected.position());
    if selected.name() == other.name() {
        lemma_permission_names_differ(selected, other);
    }
}

proof fn lemma_permission_names_differ(a: PermissionChoice, b: PermissionChoice)
    requires
        a.name() == b.name(),
    ensures
        a == b,
{
    reveal_strlit("Allow once");
    reveal_strlit("Allow session");
    reveal_strlit("Always allow");
    reveal_strlit("Deny");
    reveal_strlit("Quit");
    assert("Deny"@[0] == 'D' && "Quit"@[0] == 'Q');
    assert("Allow once"@.len() == 10 && "Allow session"@.len() == 13);
    assert("Always allow"@.len() == 12 && "Deny"@.len() == 4 && "Quit"@.len() == 4);
}

} // verus!
