//! The state of the mail reader: the message list, the selection, the
//! open message and how far it is scrolled.
use vstd::prelude::*;
use crate::text::{join, join_lines, lines, split_lines, views};

verus! {

/// A message as the reader lists it.
#[derive(Debug, Clone, Default, PartialEq, Eq)]
pub struct Email {
    pub folder: String,
    pub internal_id: String,
    /// Seconds since the Unix epoch.
    pub date: i64,
    pub from_name: Option<String>,
    pub from_addr: String,
    pub subject: String,
    /// The HTML body, once loaded.
    pub body: Option<String>,
    /// Marked for a bulk action.
    pub selected: bool,
}

fn clone_opt(s: &Option<String>) -> (r: Option<String>)
    ensures
        r == *s,
{
    match s {
        Some(x) => Some(x.clone()),
        None => None,
    }
}

impl Email {
    /// A field-by-field copy.
    pub fn duplicate(&self) -> (r: Email)
        ensures
            r == *self,
    {
        Email {
            folder: self.folder.clone(),
            internal_id: self.internal_id.clone(),
            date: self.date,
            from_name: clone_opt(&self.from_name),
            from_addr: self.from_addr.clone(),
            subject: self.subject.clone(),
            body: clone_opt(&self.body),
            selected: self.selected,
        }
    }

    /// Flips the mark.
    pub fn toggle_select(&mut self)
        ensures
            *final(self) == (Email { selected: !old(self).selected, ..*old(self) }),
    {
        self.selected = !self.selected;
    }
}

/// Which pane has the keyboard.
#[derive(Debug, Default, Clone, Copy, PartialEq, Eq, Structural)]
pub enum AppFocus {
    #[default]
    EmailList,
    EmailBody,
}

/// The reader's state.
#[derive(Debug, Default, Clone)]
pub struct App {
    pub loading: bool,
    pub focus: AppFocus,
    pub emails: Vec<Email>,
    /// The position of the highlighted message in `emails`.
    pub selected_email: usize,
    pub open_email: Option<Email>,
    /// The width, in columns, that bodies are rendered to.
    pub max_width: usize,
    /// The first body line shown.
    pub email_offset: usize,
    /// How many body lines fit on screen.
    pub email_page_size: usize,
    /// When the state last changed, as a time stamp the caller supplies.
    pub last_update: Option<u64>,
    pub current_folder: String,
    /// The open message's body rendered as plain text at `max_width`
    /// columns. Rendering HTML is the caller's work; the reader only keeps
    /// the text, and drops it when the open message changes.
    pub body_text: Option<String>,
}

/// The marked messages of `s`, in order.
pub open spec fn marked(s: Seq<Email>) -> Seq<Email>
    decreases s.len(),
{
    if s.len() == 0 {
        s
    } else if s.last().selected {
        marked(s.drop_last()).push(s.last())
    } else {
        marked(s.drop_last())
    }
}

/// The unmarked messages of `s`, in order.
pub open spec fn unmarked(s: Seq<Email>) -> Seq<Email>
    decreases s.len(),
{
    if s.len() == 0 {
        s
    } else if !s.last().selected {
        unmarked(s.drop_last()).push(s.last())
    } else {
        unmarked(s.drop_last())
    }
}

/// The messages of `s` whose id is not `id`, in order.
pub open spec fn without_id(s: Seq<Email>, id: Seq<char>) -> Seq<Email>
    decreases s.len(),
{
    if s.len() == 0 {
        s
    } else if s.last().internal_id@ != id {
        without_id(s.drop_last(), id).push(s.last())
    } else {
        without_id(s.drop_last(), id)
    }
}

/// The smaller of two integers.
pub open spec fn min(a: int, b: int) -> int {
    if a <= b {
        a
    } else {
        b
    }
}

/// The larger of two integers.
pub open spec fn max(a: int, b: int) -> int {
    if a >= b {
        a
    } else {
        b
    }
}

/// The rendered body of the open message, if the caller has given one.
pub open spec fn open_body(a: App) -> Option<Seq<char>> {
    match a.body_text {
        Some(t) => Some(t@),
        None => None,
    }
}

/// A rendered body is at hand.
pub open spec fn body_ready(a: App) -> bool {
    open_body(a) is Some
}

/// The lines of the rendered body.
pub open spec fn body_lines(a: App) -> Seq<Seq<char>> {
    lines(open_body(a)->0)
}

/// The state after `next_email`; likewise for the functions below.
pub open spec fn spec_next_email(a: App) -> App {
    if a.selected_email + 1 < a.emails.len() {
        App { selected_email: (a.selected_email + 1) as usize, ..a }
    } else {
        a
    }
}

pub open spec fn spec_prev_email(a: App) -> App {
    if a.selected_email > 0 {
        App { selected_email: (a.selected_email - 1) as usize, ..a }
    } else {
        a
    }
}

pub open spec fn spec_next_email_page(a: App) -> App {
    if a.selected_email + 1 < a.emails.len() {
        App { selected_email: min(a.selected_email + 10, a.emails.len() - 1) as usize, ..a }
    } else {
        a
    }
}

pub open spec fn spec_prev_email_page(a: App) -> App {
    App { selected_email: max(a.selected_email - 10, 0) as usize, ..a }
}

pub open spec fn spec_first_email(a: App) -> App {
    App { selected_email: 0, ..a }
}

pub open spec fn spec_last_email(a: App) -> App {
    App { selected_email: max(a.emails.len() - 1, 0) as usize, ..a }
}

pub open spec fn spec_next_line(a: App) -> App {
    App { email_offset: (a.email_offset + 1) as usize, ..a }
}

pub open spec fn spec_prev_line(a: App) -> App {
    App { email_offset: max(a.email_offset - 1, 0) as usize, ..a }
}

pub open spec fn spec_next_body_page(a: App) -> App {
    App {
        email_offset: min(a.email_offset + a.email_page_size, body_lines(a).len() as int) as usize,
        ..a
    }
}

pub open spec fn spec_prev_body_page(a: App) -> App {
    App { email_offset: max(a.email_offset - a.email_page_size, 0) as usize, ..a }
}

pub open spec fn spec_first_line(a: App) -> App {
    App { email_offset: 0, ..a }
}

pub open spec fn spec_last_line(a: App) -> App {
    App {
        email_offset: max(body_lines(a).len() - a.email_page_size, 0) as usize,
        ..a
    }
}

pub open spec fn spec_focus_next(a: App) -> App {
    if a.open_email is None {
        a
    } else {
        App {
            focus: match a.focus {
                AppFocus::EmailList => AppFocus::EmailBody,
                AppFocus::EmailBody => AppFocus::EmailList,
            },
            ..a
        }
    }
}

pub open spec fn spec_close_email(a: App) -> App {
    App { open_email: None, focus: AppFocus::EmailList, body_text: None, ..a }
}

/// The effect of the down key.
pub open spec fn spec_down(a: App) -> App {
    match a.focus {
        AppFocus::EmailList => spec_next_email(a),
        AppFocus::EmailBody => spec_next_line(a),
    }
}

/// The effect of the up key.
pub open spec fn spec_up(a: App) -> App {
    match a.focus {
        AppFocus::EmailList => spec_prev_email(a),
        AppFocus::EmailBody => spec_prev_line(a),
    }
}

/// The effect of the page-down key.
pub open spec fn spec_page_down(a: App) -> App {
    match a.focus {
        AppFocus::EmailList => spec_next_email_page(a),
        AppFocus::EmailBody => spec_next_body_page(a),
    }
}

/// The effect of the page-up key.
pub open spec fn spec_page_up(a: App) -> App {
    match a.focus {
        AppFocus::EmailList => spec_prev_email_page(a),
        AppFocus::EmailBody => spec_prev_body_page(a),
    }
}

/// The effect of the home key.
pub open spec fn spec_home(a: App) -> App {
    match a.focus {
        AppFocus::EmailList => spec_first_email(a),
        AppFocus::EmailBody => spec_first_line(a),
    }
}

/// The effect of the end key.
pub open spec fn spec_end(a: App) -> App {
    match a.focus {
        AppFocus::EmailList => spec_last_email(a),
        AppFocus::EmailBody => spec_last_line(a),
    }
}

/// A key may move through the body only when the body can be rendered.
pub open spec fn body_keys_ok(a: App) -> bool {
    a.focus == AppFocus::EmailBody ==> body_ready(a)
}

impl App {
    /// A fresh reader on the inbox.
    pub fn new() -> (r: App)
        ensures
            r.current_folder@ == "INBOX"@,
            !r.loading,
            r.focus == AppFocus::EmailList,
            r.emails@.len() == 0,
            r.selected_email == 0,
            r.open_email is None,
            r.max_width == 0,
            r.email_offset == 0,
            r.email_page_size == 0,
            r.last_update is None,
            r.body_text is None,
    {
        App {
            loading: false,
            focus: AppFocus::EmailList,
            emails: Vec::new(),
            selected_email: 0,
            open_email: None,
            max_width: 0,
            email_offset: 0,
            email_page_size: 0,
            last_update: None,
            current_folder: "INBOX".to_string(),
            body_text: None,
        }
    }

    /// Records that the state changed at `now`.
    pub fn update(&mut self, now: u64)
        ensures
            *final(self) == (App { last_update: Some(now), ..*old(self) }),
    {
        self.last_update = Some(now);
    }

    /// How many messages are marked.
    pub fn select_count(&self) -> (r: usize)
        ensures
            r == marked(self.emails@).len(),
    {
        self.selected().len()
    }

    /// Whether any message is marked.
    pub fn has_selection(&self) -> (r: bool)
        ensures
            r == (marked(self.emails@).len() > 0),
    {
        self.select_count() > 0
    }

    /// The marked messages, in list order.
    pub fn selected(&self) -> (r: Vec<Email>)
        ensures
            r@ == marked(self.emails@),
    {
        let s = &self.emails;
        let mut r: Vec<Email> = Vec::new();
        let mut i: usize = 0;
        while i < s.len()
            invariant
                i <= s@.len(),
                r@ == marked(s@.subrange(0, i as int)),
            decreases s@.len() - i,
        {
            assert(s@.subrange(0, i + 1).drop_last() =~= s@.subrange(0, i as int));
            if s[i].selected {
                r.push(s[i].duplicate());
            }
            i = i + 1;
        }
        assert(s@.subrange(0, s@.len() as int) =~= s@);
        r
    }

    /// The internal ids of the marked messages, in list order.
    pub fn selected_ids(&self) -> (r: Vec<String>)
        ensures
            r@.len() == marked(self.emails@).len(),
            forall|i: int| 0 <= i < r@.len() ==> #[trigger] r@[i] == marked(self.emails@)[i].internal_id,
    {
        let sel = self.selected();
        let mut r: Vec<String> = Vec::new();
        let mut i: usize = 0;
        while i < sel.len()
            invariant
                sel@ == marked(self.emails@),
                i <= sel@.len(),
                r@.len() == i,
                forall|j: int| 0 <= j < i ==> #[trigger] r@[j] == sel@[j].internal_id,
            decreases sel@.len() - i,
        {
            r.push(sel[i].internal_id.clone());
            i = i + 1;
        }
        r
    }

    /// Closes the open message and gives the list the keyboard.
    pub fn close_email(&mut self)
        ensures
            *final(self) == spec_close_email(*old(self)),
    {
        self.open_email = None;
        self.focus = AppFocus::EmailList;
        self.body_text = None;
    }

    /// Flips the mark of the highlighted message.
    pub fn toggle_selected(&mut self)
        requires
            old(self).selected_email < old(self).emails@.len(),
        ensures
            final(self).emails@ == old(self).emails@.update(
                old(self).selected_email as int,
                Email {
                    selected: !old(self).emails@[old(self).selected_email as int].selected,
                    ..old(self).emails@[old(self).selected_email as int]
                },
            ),
            *final(self) == (App { emails: final(self).emails, ..*old(self) }),
    {
        let i = self.selected_email;
        let mut e = self.emails[i].duplicate();
        e.toggle_select();
        self.emails.set(i, e);
    }

    /// Drops the marked messages from the list and closes the open one.
    pub fn remove_selected(&mut self)
        ensures
            final(self).emails@ == unmarked(old(self).emails@),
            *final(self) == (App { emails: final(self).emails, ..spec_close_email(*old(self)) }),
    {
        let mut kept: Vec<Email> = Vec::new();
        let mut i: usize = 0;
        while i < self.emails.len()
            invariant
                i <= self.emails@.len(),
                kept@ == unmarked(self.emails@.subrange(0, i as int)),
            decreases self.emails@.len() - i,
        {
            assert(self.emails@.subrange(0, i + 1).drop_last() =~= self.emails@.subrange(0, i as int));
            if !self.emails[i].selected {
                kept.push(self.emails[i].duplicate());
            }
            i = i + 1;
        }
        assert(self.emails@.subrange(0, self.emails@.len() as int) =~= self.emails@);
        self.emails = kept;
        self.close_email();
    }

    /// Drops the highlighted message (and any other with its id) from the
    /// list and closes the open one.
    pub fn remove_current_email(&mut self)
        requires
            old(self).selected_email < old(self).emails@.len(),
        ensures
            final(self).emails@ == without_id(
                old(self).emails@,
                old(self).emails@[old(self).selected_email as int].internal_id@,
            ),
            *final(self) == (App { emails: final(self).emails, ..spec_close_email(*old(self)) }),
    {
        let id = self.emails[self.selected_email].internal_id.clone();
        let mut kept: Vec<Email> = Vec::new();
        let mut i: usize = 0;
        while i < self.emails.len()
            invariant
                i <= self.emails@.len(),
                kept@ == without_id(self.emails@.subrange(0, i as int), id@),
            decreases self.emails@.len() - i,
        {
            assert(self.emails@.subrange(0, i + 1).drop_last() =~= self.emails@.subrange(0, i as int));
            if self.emails[i].internal_id != id {
                kept.push(self.emails[i].duplicate());
            }
            i = i + 1;
        }
        assert(self.emails@.subrange(0, self.emails@.len() as int) =~= self.emails@);
        self.emails = kept;
        self.close_email();
    }

    /// Opens `email` at its first line and gives its body the keyboard.
    /// Its rendered body is not known yet.
    pub fn show_email(&mut self, email: Email)
        ensures
            *final(self) == (App {
                open_email: Some(email),
                email_offset: 0,
                focus: AppFocus::EmailBody,
                body_text: None,
                ..*old(self)
            }),
    {
        self.open_email = Some(email);
        self.email_offset = 0;
        self.focus = AppFocus::EmailBody;
        self.body_text = None;
    }

    /// The message list has arrived from the server at `now`.
    pub fn emails_loaded(&mut self, emails: Vec<Email>, now: u64)
        ensures
            *final(self) == (App {
                emails,
                loading: false,
                last_update: Some(now),
                ..*old(self)
            }),
    {
        self.emails = emails;
        self.loading = false;
        self.update(now);
    }

    /// A message has been loaded from the server at `now`, with its body
    /// rendered as `text`; it is opened.
    pub fn email_opened(&mut self, email: Email, text: Option<String>, now: u64)
        ensures
            *final(self) == (App {
                open_email: Some(email),
                email_offset: 0,
                focus: AppFocus::EmailBody,
                body_text: text,
                loading: false,
                last_update: Some(now),
                ..*old(self)
            }),
    {
        self.show_email(email);
        self.body_text = text;
        self.loading = false;
        self.update(now);
    }

    /// The server has moved the highlighted message at `now`: it leaves the
    /// list.
    pub fn current_moved(&mut self, now: u64)
        requires
            old(self).selected_email < old(self).emails@.len(),
        ensures
            final(self).emails@ == without_id(
                old(self).emails@,
                old(self).emails@[old(self).selected_email as int].internal_id@,
            ),
            *final(self) == (App {
                emails: final(self).emails,
                loading: false,
                last_update: Some(now),
                ..spec_close_email(*old(self))
            }),
    {
        self.remove_current_email();
        self.loading = false;
        self.update(now);
    }

    /// The server has moved the marked messages at `now`: they leave the
    /// list.
    pub fn selected_moved(&mut self, now: u64)
        ensures
            final(self).emails@ == unmarked(old(self).emails@),
            *final(self) == (App {
                emails: final(self).emails,
                loading: false,
                last_update: Some(now),
                ..spec_close_email(*old(self))
            }),
    {
        self.remove_selected();
        self.loading = false;
        self.update(now);
    }

    /// Moves down the list or the body, by the focus.
    pub fn down(&mut self)
        requires
            old(self).focus == AppFocus::EmailBody ==> old(self).email_offset < usize::MAX,
        ensures
            *final(self) == spec_down(*old(self)),
    {
        match self.focus {
            AppFocus::EmailList => self.next_email(),
            AppFocus::EmailBody => self.next_line(),
        }
    }

    /// Moves up the list or the body, by the focus.
    pub fn up(&mut self)
        ensures
            *final(self) == spec_up(*old(self)),
    {
        match self.focus {
            AppFocus::EmailList => self.prev_email(),
            AppFocus::EmailBody => self.prev_line(),
        }
    }

    /// Moves a page down the list or the body, by the focus.
    pub fn page_down(&mut self)
        requires
            body_keys_ok(*old(self)),
        ensures
            *final(self) == spec_page_down(*old(self)),
    {
        match self.focus {
            AppFocus::EmailList => self.next_email_page(),
            AppFocus::EmailBody => self.next_body_page(),
        }
    }

    /// Moves a page up the list or the body, by the focus.
    pub fn page_up(&mut self)
        ensures
            *final(self) == spec_page_up(*old(self)),
    {
        match self.focus {
            AppFocus::EmailList => self.prev_email_page(),
            AppFocus::EmailBody => self.prev_body_page(),
        }
    }

    /// Goes to the top of the list or the body, by the focus.
    pub fn home(&mut self)
        ensures
            *final(self) == spec_home(*old(self)),
    {
        match self.focus {
            AppFocus::EmailList => self.first_email(),
            AppFocus::EmailBody => self.first_line(),
        }
    }

    /// Goes to the end of the list or the body, by the focus.
    pub fn end(&mut self)
        requires
            body_keys_ok(*old(self)),
        ensures
            *final(self) == spec_end(*old(self)),
    {
        match self.focus {
            AppFocus::EmailList => self.last_email(),
            AppFocus::EmailBody => self.last_line(),
        }
    }

    /// Scrolls the body one line down.
    pub fn next_line(&mut self)
        requires
            old(self).email_offset < usize::MAX,
        ensures
            *final(self) == spec_next_line(*old(self)),
    {
        self.email_offset = self.email_offset + 1;
    }

    /// Scrolls the body one line up, no further than the top.
    pub fn prev_line(&mut self)
        ensures
            *final(self) == spec_prev_line(*old(self)),
    {
        if self.email_offset > 0 {
            self.email_offset = self.email_offset - 1;
        }
    }

    /// Scrolls the body one page down, no further than its line count.
    pub fn next_body_page(&mut self)
        requires
            body_ready(*old(self)),
        ensures
            *final(self) == spec_next_body_page(*old(self)),
    {
        let count = self.line_count_now();
        if self.email_offset > count || self.email_page_size > count - self.email_offset {
            self.email_offset = count;
        } else {
            self.email_offset = self.email_offset + self.email_page_size;
        }
    }

    /// Scrolls the body one page up, no further than the top.
    pub fn prev_body_page(&mut self)
        ensures
            *final(self) == spec_prev_body_page(*old(self)),
    {
        if self.email_offset > self.email_page_size {
            self.email_offset = self.email_offset - self.email_page_size;
        } else {
            self.email_offset = 0;
        }
    }

    /// Scrolls the body to the top.
    pub fn first_line(&mut self)
        ensures
            *final(self) == spec_first_line(*old(self)),
    {
        self.email_offset = 0;
    }

    /// Scrolls so that the last page of the body shows.
    pub fn last_line(&mut self)
        requires
            body_ready(*old(self)),
        ensures
            *final(self) == spec_last_line(*old(self)),
    {
        let count = self.line_count_now();
        if count > self.email_page_size {
            self.email_offset = count - self.email_page_size;
        } else {
            self.email_offset = 0;
        }
    }

    /// Moves the highlight one message down, no further than the last.
    pub fn next_email(&mut self)
        ensures
            *final(self) == spec_next_email(*old(self)),
    {
        if self.selected_email < self.emails.len() && self.selected_email + 1 < self.emails.len() {
            self.selected_email = self.selected_email + 1;
        }
    }

    /// Moves the highlight one message up, no further than the first.
    pub fn prev_email(&mut self)
        ensures
            *final(self) == spec_prev_email(*old(self)),
    {
        if self.selected_email > 0 {
            self.selected_email = self.selected_email - 1;
        }
    }

    /// Moves the highlight ten messages down, no further than the last.
    pub fn next_email_page(&mut self)
        ensures
            *final(self) == spec_next_email_page(*old(self)),
    {
        let n = self.emails.len();
        if self.selected_email < n && self.selected_email + 1 < n {
            if n - 1 - self.selected_email > 10 {
                self.selected_email = self.selected_email + 10;
            } else {
                self.selected_email = n - 1;
            }
        }
    }

    /// Moves the highlight ten messages up, no further than the first.
    pub fn prev_email_page(&mut self)
        ensures
            *final(self) == spec_prev_email_page(*old(self)),
    {
        if self.selected_email > 10 {
            self.selected_email = self.selected_email - 10;
        } else {
            self.selected_email = 0;
        }
    }

    /// Highlights the first message.
    pub fn first_email(&mut self)
        ensures
            *final(self) == spec_first_email(*old(self)),
    {
        self.selected_email = 0;
    }

    /// Highlights the last message (the first place of an empty list).
    pub fn last_email(&mut self)
        ensures
            *final(self) == spec_last_email(*old(self)),
    {
        if self.emails.len() > 0 {
            self.selected_email = self.emails.len() - 1;
        } else {
            self.selected_email = 0;
        }
    }

    /// Moves the keyboard to the other pane, while a message is open.
    pub fn focus_next(&mut self)
        ensures
            *final(self) == spec_focus_next(*old(self)),
    {
        if self.open_email.is_none() {
            return;
        }
        match self.focus {
            AppFocus::EmailList => self.focus = AppFocus::EmailBody,
            AppFocus::EmailBody => self.focus = AppFocus::EmailList,
        }
    }

    /// The highlighted message.
    pub fn selected_email(&self) -> (r: Email)
        requires
            self.selected_email < self.emails@.len(),
        ensures
            r == self.emails@[self.selected_email as int],
    {
        self.emails[self.selected_email].duplicate()
    }

    /// The open message's rendered body, as the caller gave it.
    pub fn email_body(&self) -> (r: Option<String>)
        ensures
            r == self.body_text,
    {
        clone_opt(&self.body_text)
    }

    /// Keeps `text` as the open message's rendered body.
    pub fn set_body_text(&mut self, text: Option<String>)
        ensures
            *final(self) == (App { body_text: text, ..*old(self) }),
    {
        self.body_text = text;
    }

    fn line_count_now(&self) -> (r: usize)
        requires
            body_ready(*self),
        ensures
            r == body_lines(*self).len(),
    {
        match self.email_line_count() {
            Some(n) => n,
            None => 0,
        }
    }

    /// How many lines the rendered body has.
    pub fn email_line_count(&self) -> (r: Option<usize>)
        ensures
            match open_body(*self) {
                Some(b) => r matches Some(n) && n == body_lines(*self).len(),
                None => r is None,
            },
    {
        match self.email_body() {
            Some(text) => Some(split_lines(text.as_str()).len()),
            None => None,
        }
    }

    /// The body lines on screen: from the scroll offset, one page and one
    /// line more, no further than the last line, joined with `\n`.
    pub fn email_viewport(&self) -> (r: Option<String>)
        ensures
            match open_body(*self) {
                Some(b) => r matches Some(t) && t@ == join(
                    body_lines(*self).subrange(
                        min(self.email_offset as int, viewport_end(*self)),
                        viewport_end(*self),
                    ),
                    "\n"@,
                ),
                None => r is None,
            },
    {
        match self.email_body() {
            Some(text) => {
                let ls = split_lines(text.as_str());
                let count = ls.len();
                let end = if self.email_offset >= count || self.email_page_size >= count
                    - self.email_offset - 1 {
                    count
                } else {
                    self.email_offset + self.email_page_size + 1
                };
                let start = if self.email_offset < end {
                    self.email_offset
                } else {
                    end
                };
                Some(join_lines(&ls, start, end))
            },
            None => None,
        }
    }
}

/// The end of the lines on screen.
pub open spec fn viewport_end(a: App) -> int {
    min(a.email_offset + a.email_page_size + 1, body_lines(a).len() as int)
}

/// What the reader is asked to do.
#[derive(Debug, Clone, Copy, PartialEq, Eq, Structural)]
pub enum EventType {
    StartLoading,
    FinishLoading,
    LoadEmails,
    RefreshEmails,
    Archive,
    ArchiveSelected,
    MoveToSpam,
    MoveSelectedToSpam,
    Select,
    Down,
    Up,
    PageDown,
    PageUp,
    Home,
    End,
    FocusNext,
    OpenEmail,
    CloseEmail,
    SetMaxWidth(usize),
    SetEmailPageSize(usize),
}

/// The events that need the mail server; the others only change the state.
pub open spec fn needs_server(e: EventType) -> bool {
    match e {
        EventType::LoadEmails | EventType::RefreshEmails | EventType::OpenEmail
        | EventType::Archive | EventType::ArchiveSelected | EventType::MoveToSpam
        | EventType::MoveSelectedToSpam => true,
        _ => false,
    }
}

/// The folder that a move event sends messages to.
pub fn move_target(e: EventType) -> (r: Option<String>)
    ensures
        match e {
            EventType::MoveToSpam | EventType::MoveSelectedToSpam => r matches Some(f) && f@
                == "Junk Email"@,
            EventType::Archive | EventType::ArchiveSelected => r matches Some(f) && f@
                == "Archive"@,
            _ => r is None,
        },
{
    match e {
        EventType::MoveToSpam | EventType::MoveSelectedToSpam => Some("Junk Email".to_string()),
        EventType::Archive | EventType::ArchiveSelected => Some("Archive".to_string()),
        _ => None,
    }
}

/// The state after an event that does not need the server, except `Select`.
pub open spec fn spec_event(a: App, e: EventType) -> App {
    match e {
        EventType::StartLoading => App { loading: true, ..a },
        EventType::FinishLoading => App { loading: false, ..a },
        EventType::Up => spec_up(a),
        EventType::Down => spec_down(a),
        EventType::PageUp => spec_page_up(a),
        EventType::PageDown => spec_page_down(a),
        EventType::Home => spec_home(a),
        EventType::End => spec_end(a),
        EventType::FocusNext => spec_focus_next(a),
        EventType::CloseEmail => spec_close_email(a),
        EventType::SetMaxWidth(w) => App { max_width: w, ..a },
        EventType::SetEmailPageSize(n) => App { email_page_size: n, ..a },
        _ => a,
    }
}

/// What an event that does not need the server asks of the state.
pub open spec fn event_ok(a: App, e: EventType) -> bool {
    match e {
        EventType::Select => a.selected_email < a.emails@.len(),
        EventType::Down => a.focus == AppFocus::EmailBody ==> a.email_offset < usize::MAX,
        EventType::PageDown | EventType::End => body_keys_ok(a),
        _ => true,
    }
}

impl App {
    /// Carries out an event that does not need the server, and records the
    /// change at `now`. Events that need the server leave the state as it
    /// is but for the time stamp: the caller does their work.
    pub fn apply_event(&mut self, event: EventType, now: u64)
        requires
            event_ok(*old(self), event),
        ensures
            event != EventType::Select ==> *final(self) == (App {
                last_update: Some(now),
                ..spec_event(*old(self), event)
            }),
            event == EventType::Select ==> final(self).emails@ == old(self).emails@.update(
                old(self).selected_email as int,
                Email {
                    selected: !old(self).emails@[old(self).selected_email as int].selected,
                    ..old(self).emails@[old(self).selected_email as int]
                },
            ),
            event == EventType::Select ==> *final(self) == (App {
                emails: final(self).emails,
                last_update: Some(now),
                ..*old(self)
            }),
            needs_server(event) ==> *final(self) == (App { last_update: Some(now), ..*old(self) }),
    {
        match event {
            EventType::StartLoading => self.loading = true,
            EventType::FinishLoading => self.loading = false,
            EventType::Select => self.toggle_selected(),
            EventType::Up => self.up(),
            EventType::Down => self.down(),
            EventType::PageUp => self.page_up(),
            EventType::PageDown => self.page_down(),
            EventType::Home => self.home(),
            EventType::End => self.end(),
            EventType::FocusNext => self.focus_next(),
            EventType::CloseEmail => self.close_email(),
            EventType::SetMaxWidth(width) => self.max_width = width,
            EventType::SetEmailPageSize(size) => self.email_page_size = size,
            _ => {},
        }
        self.update(now);
    }
}

/// A key press, as far as the reader tells keys apart.
#[derive(Debug, Clone, Copy, PartialEq, Eq, Structural)]
pub enum Key {
    Char(char),
    Up,
    Down,
    PageUp,
    PageDown,
    Left,
    Right,
    Home,
    End,
    Enter,
    Esc,
    Other,
}

/// What a key press asks for.
#[derive(Debug, Clone, PartialEq, Eq)]
pub enum KeyAction {
    /// Leave the reader.
    Quit,
    /// Write the message list out.
    DumpEmails,
    /// Hand these events to the reader, in order.
    Send(Vec<EventType>),
}

/// The events a key sends.
pub open spec fn key_events(key: Key, focus: AppFocus) -> Seq<EventType> {
    match key {
        Key::Char('e') => seq![EventType::StartLoading, EventType::Archive, EventType::FinishLoading],
        Key::Char(' ') => seq![EventType::Select, EventType::Down],
        Key::Char('s') => seq![EventType::StartLoading, EventType::MoveToSpam, EventType::FinishLoading],
        Key::Char('r') => seq![EventType::StartLoading, EventType::RefreshEmails, EventType::FinishLoading],
        Key::Up | Key::Char('k') => seq![EventType::Up],
        Key::Down | Key::Char('j') => seq![EventType::Down],
        Key::PageUp => seq![EventType::PageUp],
        Key::PageDown => seq![EventType::PageDown],
        Key::Left | Key::Right => seq![EventType::FocusNext],
        Key::Home => seq![EventType::Home],
        Key::End => seq![EventType::End],
        Key::Enter => seq![EventType::StartLoading, EventType::OpenEmail, EventType::FinishLoading],
        Key::Esc => match focus {
            AppFocus::EmailList => seq![EventType::CloseEmail],
            AppFocus::EmailBody => seq![EventType::FocusNext],
        },
        _ => Seq::empty(),
    }
}

/// Decides what a key press does: `q` quits, `d` writes the list out, and
/// every other key sends its events (none for an unbound key).
pub fn key_action(key: Key, focus: AppFocus) -> (r: KeyAction)
    ensures
        (r is Quit) <==> key == Key::Char('q'),
        (r is DumpEmails) <==> key == Key::Char('d'),
        r matches KeyAction::Send(v) ==> v@ == key_events(key, focus),
{
    let mut v: Vec<EventType> = Vec::new();
    match key {
        Key::Char('q') => return KeyAction::Quit,
        Key::Char('d') => return KeyAction::DumpEmails,
        Key::Char('e') => {
            v.push(EventType::StartLoading);
            v.push(EventType::Archive);
            v.push(EventType::FinishLoading);
        },
        Key::Char(' ') => {
            v.push(EventType::Select);
            v.push(EventType::Down);
        },
        Key::Char('s') => {
            v.push(EventType::StartLoading);
            v.push(EventType::MoveToSpam);
            v.push(EventType::FinishLoading);
        },
        Key::Char('r') => {
            v.push(EventType::StartLoading);
            v.push(EventType::RefreshEmails);
            v.push(EventType::FinishLoading);
        },
        Key::Up | Key::Char('k') => v.push(EventType::Up),
        Key::Down | Key::Char('j') => v.push(EventType::Down),
        Key::PageUp => v.push(EventType::PageUp),
        Key::PageDown => v.push(EventType::PageDown),
        Key::Left | Key::Right => v.push(EventType::FocusNext),
        Key::Home => v.push(EventType::Home),
        Key::End => v.push(EventType::End),
        Key::Enter => {
            v.push(EventType::StartLoading);
            v.push(EventType::OpenEmail);
            v.push(EventType::FinishLoading);
        },
        Key::Esc => match focus {
            AppFocus::EmailList => v.push(EventType::CloseEmail),
            AppFocus::EmailBody => v.push(EventType::FocusNext),
        },
        _ => {},
    }
    assert(v@ =~= key_events(key, focus));
    KeyAction::Send(v)
}

} // verus!
