use vstd::prelude::*;

use crate::binding::BindingTable;
use crate::component::{error_witness, valid_ids, ActionRow, CompWindow};
use crate::context::Context;
use crate::dusk::Dusk;
use crate::errors::DuskError;

verus! {

pub open spec fn opt_view(o: Option<String>) -> Option<Seq<char>> {
    match o {
        Some(s) => Some(s@),
        None => None,
    }
}

/// The text a publish must send, given the text last sent and the text just
/// rendered (`None`: unchanged). Text equal to what is shown is not sent again.
pub open spec fn text_to_send(last: Option<Seq<char>>, new: Option<Seq<char>>) -> Option<Seq<char>> {
    match new {
        Some(t) => if last == Some(t) {
            None
        } else {
            Some(t)
        },
        None => None,
    }
}

/// The text shown after such a publish.
pub open spec fn text_after(last: Option<Seq<char>>, new: Option<Seq<char>>) -> Option<Seq<char>> {
    match new {
        Some(t) => Some(t),
        None => last,
    }
}

/// What the session loop does with its message before waiting.
pub enum Publish {
    /// First pass: create the message, with `text` if there is one.
    Create { text: Option<String> },
    /// Update the message's controls, and its text when `text` is present.
    Update { message_id: u64, text: Option<String> },
    /// Leave the message as it is and wait on it again.
    Reuse { message_id: u64 },
}

/// What a session remembers of its message between render passes.
pub struct Session {
    /// The message published so far, if any.
    pub message_id: Option<u64>,
    /// The text that message shows.
    pub last_text: Option<String>,
}

/// Renders the text of `data`.
pub fn draw_text<D, FT: Fn(&D) -> Option<String>>(data: &D, render_text: &FT) -> (r: Option<
    String,
>)
    requires
        render_text.requires((data,)),
    ensures
        render_text.ensures((data,), r),
{
    render_text(data)
}

/// One render pass of the controls: the binding table is cleared, the tree
/// rendered from `data` is lowered, and its handlers are bound.
pub fn draw_components<H, D, FC: Fn(&D) -> CompWindow<H>>(
    binding: &mut BindingTable<H>,
    data: &D,
    render_cmp: &FC,
) -> (r: Result<Vec<ActionRow>, DuskError>)
    requires
        render_cmp.requires((data,)),
    ensures
        exists|w: CompWindow<H>|
            #[trigger] render_cmp.ensures((data,), w) && (r is Ok <==> valid_ids(w.ids())) && match r {
                Ok(rows) => {
                    &&& w.lowers_to(rows@)
                    &&& final(binding)@ == w.bindings()
                    &&& final(binding).wf()
                },
                Err(e) => {
                    &&& error_witness(w.ids(), e)
                    &&& final(binding)@.is_prefix_of(w.bindings())
                    &&& final(binding).wf()
                },
            },
{
    binding.clear();
    let window = render_cmp(data);
    let ghost w0 = window;
    let r = window.build(binding);
    assert(render_cmp.ensures((data,), w0));
    r
}

impl Session {
    pub fn new() -> (s: Self)
        ensures
            s.message_id is None,
            s.last_text is None,
    {
        Session { message_id: None, last_text: None }
    }

    /// Start of a render pass: the slot left for the message's previous
    /// revision is dropped, so it can never be answered.
    pub fn begin_pass(&self, dusk: &mut Dusk)
        ensures
            final(dusk)@ == match self.message_id {
                Some(id) => old(dusk)@.remove(id),
                None => old(dusk)@,
            },
    {
        match self.message_id {
            Some(id) => {
                dusk.discard(id);
            },
            None => {},
        }
    }

    /// Decides how to publish after rendering `new_text`, and consumes the
    /// handler's request to leave the message as it is.
    pub fn plan_publish(&mut self, ctx: &mut Context, new_text: Option<String>) -> (p: Publish)
        ensures
            !final(ctx).dont_update,
            final(ctx).should_exit == old(ctx).should_exit,
            final(self).message_id == old(self).message_id,
            ({
                let send = text_to_send(opt_view(old(self).last_text), opt_view(new_text));
                let shown = text_after(opt_view(old(self).last_text), opt_view(new_text));
                match old(self).message_id {
                    None => {
                        &&& p is Create
                        &&& opt_view(p->Create_text) == send
                        &&& opt_view(final(self).last_text) == shown
                    },
                    Some(id) => if old(ctx).dont_update {
                        &&& p == Publish::Reuse { message_id: id }
                        &&& final(self).last_text == old(self).last_text
                    } else {
                        &&& p is Update
                        &&& p->Update_message_id == id
                        &&& opt_view(p->Update_text) == send
                        &&& opt_view(final(self).last_text) == shown
                    },
                }
            }),
    {
        let suppress = ctx.take_dont_update();
        let send = match &new_text {
            Some(t) => match &self.last_text {
                Some(last) => if *t == *last {
                    None
                } else {
                    Some(t.clone())
                },
                None => Some(t.clone()),
            },
            None => None,
        };
        match self.message_id {
            None => {
                if new_text.is_some() {
                    self.last_text = new_text;
                }
                Publish::Create { text: send }
            },
            Some(id) => {
                if suppress {
                    Publish::Reuse { message_id: id }
                } else {
                    if new_text.is_some() {
                        self.last_text = new_text;
                    }
                    Publish::Update { message_id: id, text: send }
                }
            },
        }
    }

    /// Records the message that the last publish produced.
    pub fn published(&mut self, message_id: u64)
        ensures
            final(self).message_id == Some(message_id),
            final(self).last_text == old(self).last_text,
    {
        self.message_id = Some(message_id);
    }
}

/// Rendering the same text twice in a row sends it at most once: the second
/// publish carries no text change.
pub proof fn lemma_repeated_text_not_resent(last: Option<Seq<char>>, text: Option<Seq<char>>)
    ensures
        text_to_send(text_after(last, text), text) is None,
{
}

} // verus!
