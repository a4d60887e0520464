//! Stages of a download, process, upload assembly line: what each stage
//! produces from what it receives. The stages run on their own threads and
//! talk over channels; the messages and the transformations are here.
use vstd::prelude::*;

verus! {

pub enum Message {
    Download(String),
    Process(String),
    Exit,
}

/// The label a downloaded file gets.
pub fn downloaded(file: &str) -> (r: String)
    ensures
        r@ == file@ + " downloaded"@,
{
    String::from_str(file).concat(" downloaded")
}

/// The label a resized image gets.
pub fn resized(image: &str) -> (r: String)
    ensures
        r@ == image@ + " resized"@,
{
    String::from_str(image).concat(" resized")
}

/// The processing stage on one message: a downloaded file moves on to the
/// uploader marked processed; the end marker is passed on and ends the
/// stage; anything else is ignored. Returns (message to pass on, stop).
pub fn process_message(msg: Message) -> (r: (Option<Message>, bool))
    ensures
        match msg {
            Message::Download(f) => r.1 == false && (r.0 matches Some(Message::Process(g)) && g@ == f@
                + " processed"@),
            Message::Exit => r.1 == true && (r.0 matches Some(Message::Exit)),
            Message::Process(_) => r.1 == false && r.0 is None,
        },
{
    match msg {
        Message::Download(file) => (Some(Message::Process(file.concat(" processed"))), false),
        Message::Exit => (Some(Message::Exit), true),
        Message::Process(_) => (None, false),
    }
}

/// The upload stage on one message: a processed file is recorded as
/// uploaded; the end marker ends the stage; anything else is ignored.
/// Returns whether the stage stops.
pub fn upload_message(uploaded: &mut Vec<String>, msg: Message) -> (stop: bool)
    ensures
        match msg {
            Message::Process(f) => !stop && final(uploaded)@.len() == old(uploaded)@.len() + 1
                && final(uploaded)@.drop_last() == old(uploaded)@ && final(uploaded)@.last()@ == f@
                + " uploaded"@,
            Message::Exit => stop && final(uploaded)@ == old(uploaded)@,
            Message::Download(_) => !stop && final(uploaded)@ == old(uploaded)@,
        },
{
    match msg {
        Message::Process(file) => {
            uploaded.push(file.concat(" uploaded"));
            assert(uploaded@.drop_last() =~= old(uploaded)@);
            false
        },
        Message::Exit => true,
        Message::Download(_) => false,
    }
}

} // verus!
