//! Sample data, to try the screens with before anything is connected.
//!
//! Sized to expose the layout problems that matter: a name that overflows, a preview that has to be
//! cut, a message that wraps over several lines, one that does not fill a bubble, Cyrillic, and one
//! of each kind of media that is drawn differently.

use crate::model;
use crate::model::{Chat, ChatView, Delivery, Media, MediaView, Message, MessageView, Store, StoreView};
use vstd::prelude::*;
use vstd::string::*;

verus! {

/// A message of the samples.
pub open spec fn line(words: Seq<char>, outgoing: bool, time: Seq<char>, state: Delivery) -> MessageView {
    MessageView { id: 0, text: words, outgoing, time, state, media: None }
}

/// A message of the samples that carries something.
pub open spec fn media_line(
    words: Seq<char>,
    outgoing: bool,
    time: Seq<char>,
    media: MediaView,
) -> MessageView {
    MessageView { id: 0, text: words, outgoing, time, state: Delivery::Read, media: Some(media) }
}

/// A conversation of the samples.
pub open spec fn talk(
    name: Seq<char>,
    time: Seq<char>,
    unread: u32,
    last_outgoing: bool,
    messages: Seq<MessageView>,
) -> ChatView {
    ChatView { name, time, unread, last_outgoing, messages, ..model::empty_chat() }
}

/// The media of the samples.
pub open spec fn sample_photo() -> MediaView {
    MediaView::Photo {
        id: 1,
        access_hash: 0,
        file_reference: seq![],
        dc_id: 2,
        thumb_size: "m"@,
        size: 47_104,
        preview: None,
    }
}

/// The media of the samples.
pub open spec fn sample_voice() -> MediaView {
    MediaView::Voice {
        id: 2,
        access_hash: 0,
        file_reference: seq![],
        dc_id: 2,
        duration: 7,
        waveform: None,
        size: 4_096,
    }
}

/// The media of the samples.
pub open spec fn sample_sticker() -> MediaView {
    MediaView::Sticker {
        id: 3,
        access_hash: 0,
        file_reference: seq![],
        dc_id: 2,
        alt: "\u{1F44D}"@,
        preview: None,
    }
}

/// The first conversation of the samples.
pub open spec fn first_talk() -> Seq<MessageView> {
    seq![
        line("oi! conseguiu compilar aquilo?"@, false, "14:18"@, Delivery::Read),
        line("consegui, o elf2e32 rodou de primeira em aarch64"@, true, "14:20"@, Delivery::Read),
        line("sério? achei que ia precisar de wine pra tudo"@, false, "14:21"@, Delivery::Read),
        line(
            "não, o Martin Storsjö reescreveu as ferramentas todas em C++ nativo. makesis, signsis, rcomp, elf2e32 — tudo compila direto no Linux."@,
            true,
            "14:24"@,
            Delivery::Read,
        ),
        line("isso muda tudo"@, false, "14:30"@, Delivery::Sent),
        line("agora falta rodar no aparelho de verdade"@, false, "14:30"@, Delivery::Sent),
        media_line("olha a tela"@, false, "14:31"@, sample_photo()),
        media_line(""@, true, "14:31"@, sample_voice()),
        media_line(""@, false, "14:32"@, sample_sticker()),
    ]
}

/// The conversations of the samples.
pub open spec fn sample_chats() -> Seq<ChatView> {
    seq![
        talk("Ana Paula"@, "14:32"@, 2, false, first_talk()),
        talk(
            "Symbian Revive"@,
            "13:07"@,
            17,
            false,
            seq![
                line(
                    "anyone tried GCC 15 for arm-none-symbianelf?"@,
                    false,
                    "12:55"@,
                    Delivery::Read,
                ),
                line(
                    "binutils dropped the triple, you have to patch config.bfd"@,
                    true,
                    "13:02"@,
                    Delivery::Sent,
                ),
                line("that worked, thanks"@, false, "13:07"@, Delivery::Sent),
            ],
        ),
        talk(
            "Дмитрий"@,
            "11:48"@,
            0,
            true,
            seq![
                line("привет! как дела с телефоном?"@, false, "11:40"@, Delivery::Read),
                line("всё работает, спасибо"@, true, "11:48"@, Delivery::Read),
            ],
        ),
        talk(
            "Um Nome Bem Comprido Que Não Cabe"@,
            "ter"@,
            0,
            false,
            seq![
                line(
                    "este preview é longo o suficiente para precisar de reticências no fim"@,
                    false,
                    "09:12"@,
                    Delivery::Read,
                ),
            ],
        ),
        talk(
            "Build Bot"@,
            "seg"@,
            0,
            false,
            seq![
                line("ok"@, false, "08:00"@, Delivery::Read),
                line("falhou: libgcov não compila"@, false, "08:02"@, Delivery::Read),
            ],
        ),
        talk(
            "Notas"@,
            "dom"@,
            0,
            true,
            seq![line("EPOCSTACKSIZE 0x8000"@, true, "22:10"@, Delivery::Pending)],
        ),
        talk(
            "Marina"@,
            "sáb"@,
            1,
            false,
            seq![line("👍"@, false, "19:30"@, Delivery::Sent)],
        ),
    ]
}

/// The samples.
pub open spec fn sample_store() -> StoreView {
    StoreView { chats: sample_chats(), status: "conectado"@, ..model::empty_store() }
}

fn say(ms: &mut Vec<Message>, words: &str, outgoing: bool, time: &str, state: Delivery)
    ensures
        model::message_views(final(ms)@) == model::message_views(old(ms)@).push(
            line(words@, outgoing, time@, state),
        ),
{
    let ghost before = ms@;
    let m = Message {
        id: 0,
        text: words.to_owned(),
        outgoing,
        time: time.to_owned(),
        state,
        media: None,
    };
    ms.push(m);
    assert(model::message_views(ms@) =~= model::message_views(before).push(
        line(words@, outgoing, time@, state),
    ));
}

fn show(ms: &mut Vec<Message>, words: &str, outgoing: bool, time: &str, media: Media)
    ensures
        model::message_views(final(ms)@) == model::message_views(old(ms)@).push(
            media_line(words@, outgoing, time@, media@),
        ),
{
    let ghost before = ms@;
    let m = Message {
        id: 0,
        text: words.to_owned(),
        outgoing,
        time: time.to_owned(),
        state: Delivery::Read,
        media: Some(media),
    };
    ms.push(m);
    assert(model::message_views(ms@) =~= model::message_views(before).push(
        media_line(words@, outgoing, time@, media@),
    ));
}

fn silence() -> (r: Vec<Message>)
    ensures
        model::message_views(r@) == Seq::<MessageView>::empty(),
{
    let r: Vec<Message> = Vec::new();
    assert(model::message_views(r@) =~= Seq::<MessageView>::empty());
    r
}

fn chat(
    chats: &mut Vec<Chat>,
    name: &str,
    time: &str,
    unread: u32,
    last_outgoing: bool,
    messages: Vec<Message>,
)
    ensures
        model::chat_views(final(chats)@) == model::chat_views(old(chats)@).push(
            talk(name@, time@, unread, last_outgoing, model::message_views(messages@)),
        ),
{
    let ghost before = chats@;
    let ghost said = model::message_views(messages@);
    let mut c = Chat::default();
    c.name = name.to_owned();
    c.time = time.to_owned();
    c.unread = unread;
    c.last_outgoing = last_outgoing;
    c.messages = messages;
    assert(c@ =~= talk(name@, time@, unread, last_outgoing, said));
    chats.push(c);
    assert(model::chat_views(chats@) =~= model::chat_views(before).push(
        talk(name@, time@, unread, last_outgoing, said),
    ));
}

fn first_messages() -> (r: Vec<Message>)
    ensures
        model::message_views(r@) == first_talk(),
{
    let mut m = silence();
    say(&mut m, "oi! conseguiu compilar aquilo?", false, "14:18", Delivery::Read);
    say(
        &mut m,
        "consegui, o elf2e32 rodou de primeira em aarch64",
        true,
        "14:20",
        Delivery::Read,
    );
    say(&mut m, "sério? achei que ia precisar de wine pra tudo", false, "14:21", Delivery::Read);
    say(
        &mut m,
        "não, o Martin Storsjö reescreveu as ferramentas todas em C++ nativo. makesis, signsis, rcomp, elf2e32 — tudo compila direto no Linux.",
        true,
        "14:24",
        Delivery::Read,
    );
    say(&mut m, "isso muda tudo", false, "14:30", Delivery::Sent);
    say(&mut m, "agora falta rodar no aparelho de verdade", false, "14:30", Delivery::Sent);
    let photo = Media::Photo {
        id: 1,
        access_hash: 0,
        file_reference: Vec::new(),
        dc_id: 2,
        thumb_size: "m".to_owned(),
        size: 47_104,
        preview: None,
    };
    assert(photo@->Photo_file_reference =~= seq![]);
    show(&mut m, "olha a tela", false, "14:31", photo);
    let voice = Media::Voice {
        id: 2,
        access_hash: 0,
        file_reference: Vec::new(),
        dc_id: 2,
        duration: 7,
        waveform: None,
        size: 4_096,
    };
    assert(voice@->Voice_file_reference =~= seq![]);
    show(&mut m, "", true, "14:31", voice);
    let sticker = Media::Sticker {
        id: 3,
        access_hash: 0,
        file_reference: Vec::new(),
        dc_id: 2,
        alt: "\u{1F44D}".to_owned(),
        preview: None,
    };
    assert(sticker@->Sticker_file_reference =~= seq![]);
    show(&mut m, "", false, "14:32", sticker);
    assert(model::message_views(m@) =~= first_talk());
    m
}

impl Store {
    /// The samples.
    pub fn mock() -> (r: Store)
        ensures
            r@ == sample_store(),
    {
        let mut chats: Vec<Chat> = Vec::new();
        assert(model::chat_views(chats@) =~= Seq::<ChatView>::empty());
        chat(&mut chats, "Ana Paula", "14:32", 2, false, first_messages());

        let mut m = silence();
        say(
            &mut m,
            "anyone tried GCC 15 for arm-none-symbianelf?",
            false,
            "12:55",
            Delivery::Read,
        );
        say(
            &mut m,
            "binutils dropped the triple, you have to patch config.bfd",
            true,
            "13:02",
            Delivery::Sent,
        );
        say(&mut m, "that worked, thanks", false, "13:07", Delivery::Sent);
        assert(model::message_views(m@) =~= sample_chats()[1].messages);
        chat(&mut chats, "Symbian Revive", "13:07", 17, false, m);

        let mut m = silence();
        say(&mut m, "привет! как дела с телефоном?", false, "11:40", Delivery::Read);
        say(&mut m, "всё работает, спасибо", true, "11:48", Delivery::Read);
        assert(model::message_views(m@) =~= sample_chats()[2].messages);
        chat(&mut chats, "Дмитрий", "11:48", 0, true, m);

        let mut m = silence();
        say(
            &mut m,
            "este preview é longo o suficiente para precisar de reticências no fim",
            false,
            "09:12",
            Delivery::Read,
        );
        assert(model::message_views(m@) =~= sample_chats()[3].messages);
        chat(&mut chats, "Um Nome Bem Comprido Que Não Cabe", "ter", 0, false, m);

        let mut m = silence();
        say(&mut m, "ok", false, "08:00", Delivery::Read);
        say(&mut m, "falhou: libgcov não compila", false, "08:02", Delivery::Read);
        assert(model::message_views(m@) =~= sample_chats()[4].messages);
        chat(&mut chats, "Build Bot", "seg", 0, false, m);

        let mut m = silence();
        say(&mut m, "EPOCSTACKSIZE 0x8000", true, "22:10", Delivery::Pending);
        assert(model::message_views(m@) =~= sample_chats()[5].messages);
        chat(&mut chats, "Notas", "dom", 0, true, m);

        let mut m = silence();
        say(&mut m, "👍", false, "19:30", Delivery::Sent);
        assert(model::message_views(m@) =~= sample_chats()[6].messages);
        chat(&mut chats, "Marina", "sáb", 1, false, m);

        assert(model::chat_views(chats@) =~= sample_chats());
        let mut store = Store::default();
        store.chats = chats;
        store.status = "conectado".to_owned();
        assert(store@ =~= sample_store());
        store
    }
}

} // verus!
